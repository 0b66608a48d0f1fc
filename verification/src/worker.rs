//! One worker of the pool as a state machine: what it is doing, what it is
//! told, and what it is asked to do next.

use crate::frontier::string_views;
use crate::page::{FetchError, PageResult, PageView};
use vstd::prelude::*;

verus! {

/// Where a worker stands in its loop.
#[derive(Debug)]
pub enum WorkerState {
    /// Looking for a URL to claim.
    Polling,
    /// Owns `url` and waits for the fetcher's answer.
    Fetching { url: String },
    /// Owns `url`, has its content and waits for the link extractor's answer.
    Extracting { url: String },
    /// Owns the URL of `result` and has yet to record it.
    Recording { result: PageResult },
    /// Done for good.
    Stopped,
}

/// A `WorkerState` as mathematical values.
pub enum WorkerView {
    Polling,
    Fetching { url: Seq<char> },
    Extracting { url: Seq<char> },
    Recording { result: PageView },
    Stopped,
}

impl View for WorkerState {
    type V = WorkerView;

    open spec fn view(&self) -> WorkerView {
        match *self {
            WorkerState::Polling => WorkerView::Polling,
            WorkerState::Fetching { url } => WorkerView::Fetching { url: url@ },
            WorkerState::Extracting { url } => WorkerView::Extracting { url: url@ },
            WorkerState::Recording { result } => WorkerView::Recording { result: result@ },
            WorkerState::Stopped => WorkerView::Stopped,
        }
    }
}

impl WorkerView {
    /// The worker has claimed a URL and has not yet recorded its outcome.
    pub open spec fn in_flight(self) -> bool {
        self is Fetching || self is Extracting || self is Recording
    }

    /// The URL that an in-flight worker owns.
    pub open spec fn claimed_url(self) -> Seq<char> {
        match self {
            WorkerView::Fetching { url } => url,
            WorkerView::Extracting { url } => url,
            WorkerView::Recording { result } => result.url,
            _ => Seq::empty(),
        }
    }

    /// How many steps an in-flight worker is away from polling again.
    pub open spec fn steps_to_poll(self) -> nat {
        match self {
            WorkerView::Fetching { .. } => 3,
            WorkerView::Extracting { .. } => 2,
            WorkerView::Recording { .. } => 1,
            _ => 0,
        }
    }
}

/// What a worker is told when it takes its next step.
#[derive(Debug)]
pub enum Event {
    /// Nothing to report: the worker starts, goes on, or has waited.
    Wake,
    /// The fetcher's answer for the URL of the last `Action::Fetch`.
    Fetched(Result<String, FetchError>),
    /// The link extractor's answer for the content of the last `Action::Extract`.
    Extracted(Vec<String>),
}

/// An `Event` as mathematical values. Every fetch failure looks the same.
pub enum EventView {
    Wake,
    Fetched { content: Seq<char> },
    FetchFailed,
    Extracted { links: Seq<Seq<char>> },
}

impl View for Event {
    type V = EventView;

    open spec fn view(&self) -> EventView {
        match *self {
            Event::Wake => EventView::Wake,
            Event::Fetched(Ok(content)) => EventView::Fetched { content: content@ },
            Event::Fetched(Err(_)) => EventView::FetchFailed,
            Event::Extracted(links) => EventView::Extracted { links: string_views(links@) },
        }
    }
}

/// What a worker has to do before its next step.
#[derive(Debug)]
pub enum Action {
    /// Fetch `url` and come back with `Event::Fetched`.
    Fetch { url: String },
    /// Extract the links of `content` that lie within `scope` and come back
    /// with `Event::Extracted`.
    Extract { content: String, scope: String },
    /// Come back at once with `Event::Wake`.
    Continue,
    /// The frontier is empty for now while other workers are in flight:
    /// wait a little, then come back with `Event::Wake`.
    Backoff,
    /// The worker has stopped.
    Stop,
}

/// An `Action` as mathematical values.
pub enum ActionView {
    Fetch { url: Seq<char> },
    Extract { content: Seq<char>, scope: Seq<char> },
    Continue,
    Backoff,
    Stop,
}

impl View for Action {
    type V = ActionView;

    open spec fn view(&self) -> ActionView {
        match *self {
            Action::Fetch { url } => ActionView::Fetch { url: url@ },
            Action::Extract { content, scope } => ActionView::Extract {
                content: content@,
                scope: scope@,
            },
            Action::Continue => ActionView::Continue,
            Action::Backoff => ActionView::Backoff,
            Action::Stop => ActionView::Stop,
        }
    }
}

/// A step that the pool refused. The pool is unchanged by it.
#[derive(Clone, Copy, Debug, PartialEq, Eq, Structural)]
pub enum StepError {
    /// The pool has no worker of that number.
    UnknownWorker,
    /// The event does not answer what the worker was last asked to do.
    UnexpectedEvent,
}

} // verus!
