//! The frontier: a FIFO queue of discovered URLs and the visited set that
//! makes draining idempotent.  The single consumer takes the first queued
//! URL that is not yet visited and records it as visited before any
//! processing starts, so a URL that later fails is still never retried.

use vstd::prelude::*;
use crate::chars::opt_str_view;

verus! {

/// One drain step on the queue and visited set: drop visited entries from
/// the front, then hand out the first fresh one, recording it as visited.
pub open spec fn drain_step(q: Seq<Seq<char>>, vis: Seq<Seq<char>>) -> (
    Option<Seq<char>>,
    Seq<Seq<char>>,
    Seq<Seq<char>>,
)
    decreases q.len(),
{
    if q.len() == 0 {
        (None, q, vis)
    } else if vis.contains(q[0]) {
        drain_step(q.drop_first(), vis)
    } else {
        (Some(q[0]), q.drop_first(), vis.push(q[0]))
    }
}

pub struct Frontier {
    pub queue: Vec<String>,
    pub visited: Vec<String>,
}

/// Whether `v@` holds a string whose characters are `s@`.
fn contains_string(v: &Vec<String>, s: &String) -> (r: bool)
    ensures
        r == v.deep_view().contains(s@),
{
    let mut i: usize = 0;
    while i < v.len()
        invariant
            i <= v@.len(),
            v@.len() == v.deep_view().len(),
            forall|j: int| 0 <= j < i ==> v.deep_view()[j] != s@,
        decreases v@.len() - i,
    {
        if v[i] == *s {
            proof {
                assert(v.deep_view()[i as int] == s@);
            }
            return true;
        }
        proof {
            assert(v.deep_view()[i as int] == v@[i as int]@);
        }
        i = i + 1;
    }
    proof {
        if v.deep_view().contains(s@) {
            let j = choose|j: int| 0 <= j < v.deep_view().len() && v.deep_view()[j] == s@;
            assert(false);
        }
    }
    false
}

impl Frontier {
    /// The queued URLs, oldest first.
    pub open spec fn queue_view(&self) -> Seq<Seq<char>> {
        self.queue.deep_view()
    }

    /// The URLs already handed out for processing.
    pub open spec fn visited_view(&self) -> Seq<Seq<char>> {
        self.visited.deep_view()
    }

    /// An empty frontier.
    pub fn new() -> (r: Frontier)
        ensures
            r.queue_view() == Seq::<Seq<char>>::empty(),
            r.visited_view() == Seq::<Seq<char>>::empty(),
    {
        let r = Frontier { queue: Vec::new(), visited: Vec::new() };
        proof {
            assert(r.queue_view() =~= Seq::<Seq<char>>::empty());
            assert(r.visited_view() =~= Seq::<Seq<char>>::empty());
        }
        r
    }

    /// Appends a URL at the back of the queue.  Enqueueing never touches the
    /// visited set: deduplication happens at dequeue time.
    pub fn enqueue(&mut self, url: String)
        ensures
            final(self).queue_view() == old(self).queue_view().push(url@),
            final(self).visited_view() == old(self).visited_view(),
    {
        let ghost uv = url@;
        self.queue.push(url);
        proof {
            assert(self.queue.deep_view() =~= old(self).queue.deep_view().push(uv));
        }
    }

    /// Takes the next URL to process: the first queued entry that is not yet
    /// visited, recorded as visited at the moment it is taken.  Entries
    /// already visited are discarded without being handed out.
    pub fn take_next(&mut self) -> (r: Option<String>)
        ensures
            ({
                let step = drain_step(old(self).queue_view(), old(self).visited_view());
                &&& opt_str_view(r) == step.0
                &&& final(self).queue_view() == step.1
                &&& final(self).visited_view() == step.2
            }),
    {
        while self.queue.len() > 0
            invariant
                drain_step(old(self).queue_view(), old(self).visited_view()) == drain_step(
                    self.queue_view(),
                    self.visited_view(),
                ),
                self.visited_view() == old(self).visited_view(),
            decreases self.queue@.len(),
        {
            let ghost q0 = self.queue.deep_view();
            let u = self.queue.remove(0);
            proof {
                assert(self.queue.deep_view() =~= q0.drop_first());
                assert(q0[0] == u@);
            }
            if !contains_string(&self.visited, &u) {
                let copy = u.clone();
                let ghost v0 = self.visited.deep_view();
                self.visited.push(copy);
                proof {
                    assert(self.visited.deep_view() =~= v0.push(u@));
                }
                return Some(u);
            }
        }
        None
    }
}

/// LAW: draining is idempotent per URL.  A URL already in the visited set is
/// never handed out by a drain step, however often it was re-enqueued.
pub proof fn lemma_visited_never_returned(q: Seq<Seq<char>>, vis: Seq<Seq<char>>, u: Seq<char>)
    requires
        vis.contains(u),
    ensures
        drain_step(q, vis).0 != Some(u),
    decreases q.len(),
{
    if q.len() == 0 {
    } else if vis.contains(q[0]) {
        lemma_visited_never_returned(q.drop_first(), vis, u);
    } else {
    }
}

} // verus!
