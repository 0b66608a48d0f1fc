//! The plain records of a crawl: per-page outcomes, the final report and the
//! two kinds of error.

use vstd::prelude::*;

verus! {

/// The outcome of one claimed URL.
#[derive(Debug)]
pub struct PageResult {
    pub url: String,
    pub links_found: usize,
    pub success: bool,
}

/// What a `PageResult` says, as mathematical values.
pub struct PageView {
    pub url: Seq<char>,
    pub links_found: nat,
    pub success: bool,
}

impl PageView {
    /// The outcome says what `found`, the record of what the link extractor
    /// returned for each page it was asked about, says of this page: a
    /// success with as many links as were returned, or a failure with none
    /// for a page that never reached the extractor.
    pub open spec fn agrees_with(self, found: Map<Seq<char>, Seq<Seq<char>>>) -> bool {
        if self.success {
            found.dom().contains(self.url) && self.links_found == found[self.url].len()
        } else {
            !found.dom().contains(self.url) && self.links_found == 0
        }
    }
}

impl View for PageResult {
    type V = PageView;

    open spec fn view(&self) -> PageView {
        PageView { url: self.url@, links_found: self.links_found as nat, success: self.success }
    }
}

impl Clone for PageResult {
    fn clone(&self) -> (copy: Self)
        ensures
            copy@ == self@,
    {
        PageResult { url: self.url.clone(), links_found: self.links_found, success: self.success }
    }
}

impl PageResult {
    /// The record of a page that was fetched and yielded `links_found` links.
    pub fn fetched(url: String, links_found: usize) -> (page: Self)
        ensures
            page@ == (PageView { url: url@, links_found: links_found as nat, success: true }),
    {
        PageResult { url, links_found, success: true }
    }

    /// The record of a page whose fetch failed: no links, no success.
    pub fn failed(url: String) -> (page: Self)
        ensures
            page@ == (PageView { url: url@, links_found: 0, success: false }),
    {
        PageResult { url, links_found: 0, success: false }
    }
}

/// The views of a sequence of page results, in order.
pub open spec fn page_views(pages: Seq<PageResult>) -> Seq<PageView> {
    pages.map_values(|p: PageResult| p@)
}

/// The URLs of a sequence of page views, in order.
pub open spec fn page_urls(pages: Seq<PageView>) -> Seq<Seq<char>> {
    pages.map_values(|p: PageView| p.url)
}

/// What a finished crawl hands back.
#[derive(Debug)]
pub struct CrawlReport {
    /// The number of URLs that were claimed.
    pub pages_crawled: usize,
    /// One outcome per claimed URL, in the order in which they were recorded.
    pub results: Vec<PageResult>,
}

/// A fetch that did not deliver a page. The crawler treats every such failure alike.
#[derive(Debug)]
pub struct FetchError {
    pub message: String,
}

/// A crawl that was refused before any worker started.
#[derive(Clone, Copy, Debug, PartialEq, Eq, Structural)]
pub enum ConfigError {
    /// The page budget was zero.
    ZeroBudget,
    /// The number of workers was zero.
    NoWorkers,
}

} // verus!
