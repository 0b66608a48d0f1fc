//! The queue of discovered URLs that await a fetch attempt.

use std::collections::VecDeque;
use vstd::prelude::*;

verus! {

/// The views of a sequence of strings, in order.
pub open spec fn string_views(strings: Seq<String>) -> Seq<Seq<char>> {
    strings.map_values(|s: String| s@)
}

/// A first-in, first-out queue of URLs. A URL may wait here several times;
/// duplicates are settled when a worker tries to claim what it popped.
pub struct Frontier {
    queue: VecDeque<String>,
}

impl View for Frontier {
    type V = Seq<Seq<char>>;

    closed spec fn view(&self) -> Seq<Seq<char>> {
        string_views(self.queue@)
    }
}

impl Frontier {
    /// A queue with nothing in it.
    pub fn new() -> (frontier: Self)
        ensures
            frontier@ == Seq::<Seq<char>>::empty(),
    {
        let frontier = Frontier { queue: VecDeque::new() };
        assert(frontier@ =~= Seq::<Seq<char>>::empty());
        frontier
    }

    /// Appends `url` at the back, whether or not it already waits in the queue.
    pub fn push(&mut self, url: String)
        ensures
            final(self)@ == old(self)@.push(url@),
    {
        self.queue.push_back(url);
        assert(self@ =~= old(self)@.push(url@));
    }

    /// Appends a copy of each of `urls` at the back, in order.
    pub fn extend(&mut self, urls: &Vec<String>)
        ensures
            final(self)@ == old(self)@ + string_views(urls@),
    {
        let mut i: usize = 0;
        while i < urls.len()
            invariant
                i <= urls.len(),
                self@ == old(self)@ + string_views(urls@).take(i as int),
            decreases urls.len() - i,
        {
            self.push(urls[i].clone());
            assert(string_views(urls@).take(i + 1) =~= string_views(urls@).take(i as int).push(
                urls[i as int]@,
            ));
            assert(self@ =~= old(self)@ + string_views(urls@).take(i + 1));
            i += 1;
        }
        assert(string_views(urls@).take(i as int) =~= string_views(urls@));
    }

    /// Takes the URL at the front, if there is one.
    pub fn pop(&mut self) -> (front: Option<String>)
        ensures
            match front {
                Some(url) => {
                    &&& old(self)@.len() > 0
                    &&& url@ == old(self)@[0]
                    &&& final(self)@ == old(self)@.drop_first()
                },
                None => {
                    &&& old(self)@.len() == 0
                    &&& final(self)@ == old(self)@
                },
            },
    {
        let front = self.queue.pop_front();
        assert(front is Some ==> self@ =~= old(self)@.drop_first());
        front
    }

    /// The number of URLs that wait.
    pub fn len(&self) -> (n: usize)
        ensures
            n == self@.len(),
    {
        broadcast use vstd::std_specs::vecdeque::group_vec_dequeue_axioms;
        self.queue.len()
    }

    /// Whether nothing waits at the moment.
    pub fn is_empty(&self) -> (empty: bool)
        ensures
            empty == (self@.len() == 0),
    {
        self.len() == 0
    }
}

} // verus!
