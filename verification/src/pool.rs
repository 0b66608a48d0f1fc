//! The shared state of one crawl and the states of its workers, behind one
//! operation: the atomic step of one worker.
//!
//! A host that runs the workers in parallel serialises its calls of `step`
//! (under one lock, say) and does the fetching, extracting and waiting
//! between the calls, outside the lock.

use crate::frontier::{string_views, Frontier};
use crate::laws::{
    lemma_all_stopped_complete, lemma_next_inv, lemma_start_inv, lemma_tally_bounds,
    lemma_tally_update,
};
use crate::page::{page_views, CrawlReport, FetchError, PageResult};
use crate::protocol::{flight_weight, PoolView};
use crate::results::ResultAggregator;
use crate::visited::VisitedSet;
use crate::worker::{Action, ActionView, Event, EventView, StepError, WorkerState, WorkerView};
use vstd::prelude::*;

verus! {

/// The views of a sequence of worker states, in order.
pub open spec fn worker_views(workers: Seq<WorkerState>) -> Seq<WorkerView> {
    workers.map_values(|w: WorkerState| w@)
}

/// The answer to a step as mathematical values.
pub open spec fn answer_view(answer: Result<Action, StepError>) -> Result<ActionView, StepError> {
    match answer {
        Ok(action) => Ok(action@),
        Err(error) => Err(error),
    }
}

/// One crawl: the claimed URLs, the frontier, the recorded outcomes, and the
/// state of each worker.
pub struct Pool {
    base_url: String,
    visited: VisitedSet,
    frontier: Frontier,
    results: ResultAggregator,
    workers: Vec<WorkerState>,
    /// The number of workers in flight.
    active: usize,
    /// Every URL that was ever put into the frontier.
    discovered: Ghost<Set<Seq<char>>>,
    /// What the link extractor returned for each page that it was asked about.
    found: Ghost<Map<Seq<char>, Seq<Seq<char>>>>,
}

impl View for Pool {
    type V = PoolView;

    closed spec fn view(&self) -> PoolView {
        PoolView {
            budget: self.visited.budget(),
            base_url: self.base_url@,
            found: self.found@,
            discovered: self.discovered@,
            visited: self.visited@,
            frontier: self.frontier@,
            results: self.results@,
            workers: worker_views(self.workers@),
        }
    }
}

impl Pool {
    /// The pool is in a state that a crawl can reach.
    pub closed spec fn wf(&self) -> bool {
        &&& self.visited.wf()
        &&& self@.inv()
        &&& self.active == self@.in_flight_count()
    }

    /// A well-formed pool satisfies the invariant of the transition system.
    pub proof fn lemma_wf_inv(&self)
        requires
            self.wf(),
        ensures
            self@.inv(),
    {
    }

    /// The pool at the start of a crawl: the frontier holds `base_url`, nothing
    /// is claimed or recorded, and each of the `worker_count` workers is polling.
    pub fn new(base_url: String, budget: usize, worker_count: usize) -> (pool: Self)
        ensures
            pool.wf(),
            pool@ == PoolView::start(base_url@, budget as nat, worker_count as nat),
    {
        let mut frontier = Frontier::new();
        frontier.push(base_url.clone());
        let mut workers: Vec<WorkerState> = Vec::new();
        let mut i: usize = 0;
        while i < worker_count
            invariant
                i <= worker_count,
                workers.len() == i,
                forall|j: int| 0 <= j < i ==> (#[trigger] workers[j])@ == WorkerView::Polling,
            decreases worker_count - i,
        {
            workers.push(WorkerState::Polling);
            i += 1;
        }
        let discovered = Ghost(Set::<Seq<char>>::empty().insert(base_url@));
        let pool = Pool {
            base_url,
            visited: VisitedSet::new(budget),
            frontier,
            results: ResultAggregator::new(),
            workers,
            active: 0,
            discovered,
            found: Ghost(Map::empty()),
        };
        proof {
            let start = PoolView::start(base_url@, budget as nat, worker_count as nat);
            assert(pool@.workers =~= start.workers);
            assert(pool@.frontier =~= start.frontier);
            assert(pool@ == start);
            lemma_start_inv(base_url@, budget as nat, worker_count as nat);
        }
        pool
    }

    /// The number of workers.
    pub fn worker_count(&self) -> (n: usize)
        ensures
            n == self@.workers.len(),
    {
        self.workers.len()
    }

    /// The number of URLs claimed so far.
    pub fn pages_crawled(&self) -> (n: usize)
        requires
            self.wf(),
        ensures
            n == self@.visited.len(),
            n <= self@.budget,
    {
        self.visited.len()
    }

    /// Whether worker `id` has stopped. A worker that the pool does not have
    /// has not.
    pub fn is_stopped(&self, id: usize) -> (stopped: bool)
        ensures
            stopped == (id < self@.workers.len() && self@.workers[id as int] is Stopped),
    {
        if id < self.workers.len() {
            matches!(self.workers[id], WorkerState::Stopped)
        } else {
            false
        }
    }

    /// Whether every worker has stopped.
    pub fn all_stopped(&self) -> (stopped: bool)
        ensures
            stopped == self@.all_stopped(),
    {
        let mut i: usize = 0;
        while i < self.workers.len()
            invariant
                i <= self.workers.len(),
                forall|w: int| 0 <= w < i ==> #[trigger] self@.workers[w] is Stopped,
            decreases self.workers.len() - i,
        {
            if !self.is_stopped(i) {
                return false;
            }
            i += 1;
        }
        true
    }

    /// One atomic step of worker `id` on `event`, as the transition system
    /// defines it. A refused step leaves the pool unchanged.
    pub fn step(&mut self, id: usize, event: Event) -> (answer: Result<Action, StepError>)
        requires
            old(self).wf(),
        ensures
            final(self).wf(),
            final(self)@ == old(self)@.next(id as int, event@).0,
            answer_view(answer) == old(self)@.next(id as int, event@).1,
    {
        if id >= self.workers.len() {
            return Err(StepError::UnknownWorker);
        }
        proof {
            lemma_next_inv(self@, id as int, event@);
        }
        match event {
            Event::Wake => {
                match &self.workers[id] {
                    WorkerState::Polling => Ok(self.poll(id)),
                    WorkerState::Recording { result } => {
                        let result = result.clone();
                        Ok(self.record(id, result))
                    },
                    WorkerState::Stopped => Ok(Action::Stop),
                    _ => Err(StepError::UnexpectedEvent),
                }
            },
            Event::Fetched(outcome) => {
                match &self.workers[id] {
                    WorkerState::Fetching { url } => {
                        let url = url.clone();
                        Ok(self.fetched(id, url, outcome))
                    },
                    _ => Err(StepError::UnexpectedEvent),
                }
            },
            Event::Extracted(links) => {
                match &self.workers[id] {
                    WorkerState::Extracting { url } => {
                        let url = url.clone();
                        Ok(self.extracted(id, url, links))
                    },
                    _ => Err(StepError::UnexpectedEvent),
                }
            },
        }
    }

    /// Puts worker `id` into `state`.
    fn set_worker(&mut self, id: usize, state: WorkerState)
        requires
            id < old(self)@.workers.len(),
        ensures
            final(self)@ == old(self)@.with_worker(id as int, state@),
            final(self).visited == old(self).visited,
            final(self).active == old(self).active,
    {
        self.workers.set(id, state);
        assert(self@.workers =~= old(self)@.workers.update(id as int, state@));
    }

    /// The step of a polling worker.
    fn poll(&mut self, id: usize) -> (action: Action)
        requires
            old(self).wf(),
            id < old(self)@.workers.len(),
            old(self)@.workers[id as int] is Polling,
            old(self)@.poll(id as int).0.inv(),
        ensures
            final(self).wf(),
            final(self)@ == old(self)@.poll(id as int).0,
            action@ == old(self)@.poll(id as int).1,
    {
        proof {
            lemma_tally_bounds(self@.workers, flight_weight(), id as int);
        }
        match self.frontier.pop() {
            None => {
                if self.active == 0 || self.visited.is_full() {
                    proof {
                        lemma_tally_update(
                            self@.workers,
                            flight_weight(),
                            id as int,
                            WorkerView::Stopped,
                        );
                    }
                    self.set_worker(id, WorkerState::Stopped);
                    Action::Stop
                } else {
                    assert(self@ == old(self)@);
                    Action::Backoff
                }
            },
            Some(url) => {
                if self.visited.try_claim(url.as_str()) {
                    proof {
                        lemma_tally_update(
                            self@.workers,
                            flight_weight(),
                            id as int,
                            WorkerView::Fetching { url: url@ },
                        );
                    }
                    assert(self.active < usize::MAX) by {
                        reveal(PoolView::inv);
                        assert(old(self)@.inv());
                        assert(self.active == old(self)@.in_flight_count());
                        self.visited.lemma_budget_fits();
                    }
                    self.active = self.active + 1;
                    self.set_worker(id, WorkerState::Fetching { url: url.clone() });
                    Action::Fetch { url }
                } else if self.visited.is_full() {
                    proof {
                        lemma_tally_update(
                            self@.workers,
                            flight_weight(),
                            id as int,
                            WorkerView::Stopped,
                        );
                    }
                    self.set_worker(id, WorkerState::Stopped);
                    Action::Stop
                } else {
                    Action::Continue
                }
            },
        }
    }

    /// The step of a worker that hears from the fetcher about `url`.
    fn fetched(&mut self, id: usize, url: String, outcome: Result<String, FetchError>) -> (action:
        Action)
        requires
            old(self).wf(),
            id < old(self)@.workers.len(),
            old(self)@.workers[id as int] == (WorkerView::Fetching { url: url@ }),
            old(self)@.next(id as int, Event::Fetched(outcome)@).0.inv(),
        ensures
            final(self).wf(),
            final(self)@ == old(self)@.next(id as int, Event::Fetched(outcome)@).0,
            Ok::<ActionView, StepError>(action@) == old(self)@.next(
                id as int,
                Event::Fetched(outcome)@,
            ).1,
    {
        match outcome {
            Ok(content) => {
                proof {
                    lemma_tally_update(
                        self@.workers,
                        flight_weight(),
                        id as int,
                        WorkerView::Extracting { url: url@ },
                    );
                }
                self.set_worker(id, WorkerState::Extracting { url });
                Action::Extract { content, scope: self.base_url.clone() }
            },
            Err(_) => {
                let result = PageResult::failed(url);
                proof {
                    lemma_tally_update(
                        self@.workers,
                        flight_weight(),
                        id as int,
                        WorkerView::Recording { result: result@ },
                    );
                }
                self.set_worker(id, WorkerState::Recording { result });
                Action::Continue
            },
        }
    }

    /// The step of a worker that hears from the link extractor about `url`.
    fn extracted(&mut self, id: usize, url: String, links: Vec<String>) -> (action: Action)
        requires
            old(self).wf(),
            id < old(self)@.workers.len(),
            old(self)@.workers[id as int] == (WorkerView::Extracting { url: url@ }),
            old(self)@.next(id as int, Event::Extracted(links)@).0.inv(),
        ensures
            final(self).wf(),
            final(self)@ == old(self)@.next(id as int, Event::Extracted(links)@).0,
            Ok::<ActionView, StepError>(action@) == old(self)@.next(
                id as int,
                Event::Extracted(links)@,
            ).1,
    {
        self.frontier.extend(&links);
        self.discovered = Ghost(self.discovered@.union(string_views(links@).to_set()));
        self.found = Ghost(self.found@.insert(url@, string_views(links@)));
        let result = PageResult::fetched(url, links.len());
        proof {
            lemma_tally_update(
                self@.workers,
                flight_weight(),
                id as int,
                WorkerView::Recording { result: result@ },
            );
        }
        self.set_worker(id, WorkerState::Recording { result });
        Action::Continue
    }

    /// The step of a worker that records `result`.
    fn record(&mut self, id: usize, result: PageResult) -> (action: Action)
        requires
            old(self).wf(),
            id < old(self)@.workers.len(),
            old(self)@.workers[id as int] == (WorkerView::Recording { result: result@ }),
            old(self)@.next(id as int, EventView::Wake).0.inv(),
        ensures
            final(self).wf(),
            final(self)@ == old(self)@.next(id as int, EventView::Wake).0,
            Ok::<ActionView, StepError>(action@) == old(self)@.next(id as int, EventView::Wake).1,
    {
        proof {
            lemma_tally_bounds(self@.workers, flight_weight(), id as int);
            lemma_tally_update(self@.workers, flight_weight(), id as int, WorkerView::Polling);
        }
        self.results.record(result);
        self.active = self.active - 1;
        self.set_worker(id, WorkerState::Polling);
        Action::Continue
    }

    /// The report of a crawl in which every worker has stopped.
    pub fn finished_report(&self) -> (report: CrawlReport)
        requires
            self.wf(),
            self@.all_stopped(),
        ensures
            report.pages_crawled == self@.visited.len(),
            page_views(report.results@) == self@.results,
            report.pages_crawled <= self@.budget,
            report.results@.len() == report.pages_crawled,
    {
        proof {
            lemma_all_stopped_complete(self@);
        }
        let report = CrawlReport {
            pages_crawled: self.visited.len(),
            results: self.results.snapshot(),
        };
        assert(page_views(report.results@).len() == report.results@.len());
        report
    }

    /// The report of the crawl, once every worker has stopped; until then
    /// there is none.
    pub fn report(&self) -> (report: Option<CrawlReport>)
        requires
            self.wf(),
        ensures
            report is Some == self@.all_stopped(),
            match report {
                Some(report) => {
                    &&& report.pages_crawled == self@.visited.len()
                    &&& page_views(report.results@) == self@.results
                    &&& report.pages_crawled <= self@.budget
                    &&& report.results@.len() == report.pages_crawled
                },
                None => true,
            },
    {
        if self.all_stopped() {
            Some(self.finished_report())
        } else {
            None
        }
    }
}

} // verus!
