//! The set of URLs that have been claimed for crawling, capped by a budget.

use vstd::hash_set::StringHashSet;
use vstd::prelude::*;

verus! {

/// The URLs claimed so far, together with the cap on how many may ever be
/// claimed. Two URLs are the same page exactly when they are the same string.
pub struct VisitedSet {
    urls: StringHashSet,
    budget: usize,
}

/// Whether a claim of `url` succeeds on a set that holds `visited` and is
/// capped at `budget`: the budget is not used up and the URL is new. A used-up
/// budget refuses even a URL that was never seen.
pub open spec fn claim_succeeds(visited: Set<Seq<char>>, budget: nat, url: Seq<char>) -> bool {
    visited.len() < budget && !visited.contains(url)
}

/// The set after a claim of `url`: the URL is added exactly when the claim succeeds.
pub open spec fn after_claim(visited: Set<Seq<char>>, budget: nat, url: Seq<char>) -> Set<
    Seq<char>,
> {
    if claim_succeeds(visited, budget, url) {
        visited.insert(url)
    } else {
        visited
    }
}

/// The set after one claim of each of `urls`, in order.
pub open spec fn after_claims(visited: Set<Seq<char>>, budget: nat, urls: Seq<Seq<char>>) -> Set<
    Seq<char>,
>
    decreases urls.len(),
{
    if urls.len() == 0 {
        visited
    } else {
        after_claim(after_claims(visited, budget, urls.drop_last()), budget, urls.last())
    }
}

/// A claim of a URL right after a claim of the same URL fails and changes
/// nothing; the first of the two succeeds exactly when the budget was not
/// used up and the URL was new.
pub proof fn lemma_claim_twice(visited: Set<Seq<char>>, budget: nat, url: Seq<char>)
    requires
        visited.finite(),
    ensures
        !claim_succeeds(after_claim(visited, budget, url), budget, url),
        after_claim(after_claim(visited, budget, url), budget, url) == after_claim(
            visited,
            budget,
            url,
        ),
{
}

/// Claims only add to the set, and never beyond the budget.
pub proof fn lemma_claims_grow(visited: Set<Seq<char>>, budget: nat, urls: Seq<Seq<char>>)
    requires
        visited.finite(),
    ensures
        after_claims(visited, budget, urls).finite(),
        visited.subset_of(after_claims(visited, budget, urls)),
        visited.len() <= after_claims(visited, budget, urls).len(),
        visited.len() <= budget ==> after_claims(visited, budget, urls).len() <= budget,
    decreases urls.len(),
{
    if urls.len() > 0 {
        lemma_claims_grow(visited, budget, urls.drop_last());
    }
}

/// A URL is claimed at most once in the lifetime of a set: once a claim of
/// `url` has been made, with whatever result, every later claim of it fails,
/// whichever URLs `others` were claimed in between.
pub proof fn lemma_claim_at_most_once(
    visited: Set<Seq<char>>,
    budget: nat,
    url: Seq<char>,
    others: Seq<Seq<char>>,
)
    requires
        visited.finite(),
    ensures
        !claim_succeeds(
            after_claims(after_claim(visited, budget, url), budget, others),
            budget,
            url,
        ),
{
    lemma_claims_grow(after_claim(visited, budget, url), budget, others);
}

impl View for VisitedSet {
    type V = Set<Seq<char>>;

    closed spec fn view(&self) -> Set<Seq<char>> {
        self.urls@
    }
}

impl VisitedSet {
    /// The largest number of URLs this set will ever hold.
    pub closed spec fn budget(&self) -> nat {
        self.budget as nat
    }

    /// The budget is a machine integer.
    pub proof fn lemma_budget_fits(&self)
        ensures
            self.budget() <= usize::MAX,
    {
    }

    /// The set is finite and within its budget.
    pub open spec fn wf(&self) -> bool {
        &&& self@.finite()
        &&& self@.len() <= self.budget()
    }

    /// No further claim can succeed.
    pub open spec fn spec_is_full(&self) -> bool {
        self@.len() >= self.budget()
    }

    /// An empty set that admits at most `budget` claims.
    pub fn new(budget: usize) -> (set: Self)
        ensures
            set.wf(),
            set@ == Set::<Seq<char>>::empty(),
            set.budget() == budget,
    {
        VisitedSet { urls: StringHashSet::new(), budget }
    }

    /// Claims `url` for the caller: inserts it unless it is already present
    /// or the budget is used up. The result tells whether the caller now owns
    /// the fetch of `url`.
    pub fn try_claim(&mut self, url: &str) -> (claimed: bool)
        requires
            old(self).wf(),
        ensures
            final(self).wf(),
            final(self).budget() == old(self).budget(),
            claimed == claim_succeeds(old(self)@, old(self).budget(), url@),
            final(self)@ == after_claim(old(self)@, old(self).budget(), url@),
    {
        broadcast use vstd::hash_set::group_hash_set_axioms;
        if self.urls.len() >= self.budget {
            return false;
        }
        if self.urls.contains(url) {
            return false;
        }
        let fresh = self.urls.insert(url.to_owned());
        fresh
    }

    /// Whether the budget is used up.
    #[verifier::when_used_as_spec(spec_is_full)]
    pub fn is_full(&self) -> (full: bool)
        requires
            self.wf(),
        ensures
            full == self.spec_is_full(),
    {
        broadcast use vstd::hash_set::group_hash_set_axioms;
        self.urls.len() >= self.budget
    }

    /// Whether `url` has been claimed.
    pub fn contains(&self, url: &str) -> (present: bool)
        ensures
            present == self@.contains(url@),
    {
        self.urls.contains(url)
    }

    /// The number of URLs claimed so far.
    pub fn len(&self) -> (n: usize)
        requires
            self.wf(),
        ensures
            n == self@.len(),
            n <= self.budget(),
    {
        broadcast use vstd::hash_set::group_hash_set_axioms;
        self.urls.len()
    }
}

} // verus!
