//! The append-only list of per-page outcomes.

use crate::page::{page_views, PageResult, PageView};
use vstd::prelude::*;

verus! {

/// The outcomes recorded so far, in the order in which they were recorded.
pub struct ResultAggregator {
    pages: Vec<PageResult>,
}

impl View for ResultAggregator {
    type V = Seq<PageView>;

    closed spec fn view(&self) -> Seq<PageView> {
        page_views(self.pages@)
    }
}

impl ResultAggregator {
    /// A list with no outcome in it.
    pub fn new() -> (results: Self)
        ensures
            results@ == Seq::<PageView>::empty(),
    {
        let results = ResultAggregator { pages: Vec::new() };
        assert(results@ =~= Seq::<PageView>::empty());
        results
    }

    /// Appends one outcome.
    pub fn record(&mut self, result: PageResult)
        ensures
            final(self)@ == old(self)@.push(result@),
    {
        self.pages.push(result);
        assert(self@ =~= old(self)@.push(result@));
    }

    /// The number of outcomes recorded so far.
    pub fn len(&self) -> (n: usize)
        ensures
            n == self@.len(),
    {
        self.pages.len()
    }

    /// A copy of every outcome recorded so far, in order.
    pub fn snapshot(&self) -> (pages: Vec<PageResult>)
        ensures
            page_views(pages@) == self@,
    {
        let mut pages: Vec<PageResult> = Vec::new();
        let mut i: usize = 0;
        while i < self.pages.len()
            invariant
                i <= self.pages.len(),
                pages.len() == i,
                forall|j: int| 0 <= j < i ==> (#[trigger] pages[j])@ == self.pages[j]@,
            decreases self.pages.len() - i,
        {
            pages.push(self.pages[i].clone());
            i += 1;
        }
        assert(page_views(pages@) =~= self@);
        pages
    }
}

} // verus!
