use vstd::prelude::*;

use crate::errors::FetchError;
use crate::petfinder::AnimalData;

verus! {

/// Identifies one outstanding unit of background work.  A token is handed out
/// when a worker is spawned and compared against the completion that the
/// worker eventually sends back; a completion bearing anything but the
/// currently tracked token is stale and must be discarded.
#[derive(Clone, Copy, PartialEq, Eq, Structural, Debug)]
pub struct LoadToken {
    pub id: u64,
}

/// What a finished search worker sends back over its one-shot channel: the
/// token it was spawned under and either the page of records or the transport
/// failure it ran into.
pub struct SearchCompletion {
    pub token: LoadToken,
    pub result: Result<Vec<AnimalData>, FetchError>,
}

/// Tracks the lifecycle of the single search request that may be outstanding
/// at any time.  Spawning the worker, the blocking network call and the
/// completion channel all live outside; the dispatcher decides which token is
/// current and which completions are stale.
pub struct FetchDispatcher {
    /// The token of the search still outstanding, if any.
    pub current: Option<LoadToken>,
    /// The id the next token will carry; strictly above every id handed out.
    pub next_id: u64,
}

/// Starting a search: the previous outstanding search (if any) is superseded
/// by replacing the tracked token, never by queueing behind it.
pub open spec fn start_search_spec(d: FetchDispatcher) -> (FetchDispatcher, LoadToken) {
    let t = LoadToken { id: d.next_id };
    (
        FetchDispatcher { current: Some(t), next_id: (d.next_id + 1) as u64 },
        t,
    )
}

/// Observing at most one completion: it is surfaced only when it carries the
/// currently tracked token, and consuming it ends the outstanding search.
/// Anything else leaves the dispatcher as it was and surfaces nothing.
pub open spec fn poll_spec(d: FetchDispatcher, c: Option<SearchCompletion>) -> (
    FetchDispatcher,
    Option<Result<Vec<AnimalData>, FetchError>>,
) {
    match c {
        Option::None => (d, Option::None),
        Option::Some(sc) => {
            if d.current == Option::Some(sc.token) {
                (FetchDispatcher { current: Option::None, next_id: d.next_id }, Option::Some(sc.result))
            } else {
                (d, Option::None)
            }
        },
    }
}

impl FetchDispatcher {
    /// Every token ever handed out has an id below `next_id`, so a fresh
    /// token can never collide with an old one.
    pub open spec fn wf(self) -> bool {
        self.current is Some ==> self.current->Some_0.id < self.next_id
    }

    pub fn new() -> (d: Self)
        ensures
            d.wf(),
            d.current is None,
            d.next_id == 0,
    {
        FetchDispatcher { current: Option::None, next_id: 0 }
    }

    /// True while a search worker is outstanding.
    pub fn is_searching(&self) -> (r: bool)
        ensures
            r == (self.current is Some),
    {
        self.current.is_some()
    }

    /// Supersedes any outstanding search and returns the token the new worker
    /// must be spawned under.
    pub fn start_search(&mut self) -> (t: LoadToken)
        requires
            old(self).wf(),
            old(self).next_id < u64::MAX,
        ensures
            final(self).wf(),
            (*final(self), t) == start_search_spec(*old(self)),
            final(self).current == Some(t),
            t.id == old(self).next_id,
            final(self).next_id == old(self).next_id + 1,
    {
        let t = LoadToken { id: self.next_id };
        self.next_id = self.next_id + 1;
        self.current = Some(t);
        t
    }

    /// Non-blocking: hands in whatever completion the channel held this frame
    /// (or none) and surfaces it only if it belongs to the current search.
    /// A stale completion is discarded on arrival, leaving no trace.
    pub fn poll(&mut self, c: Option<SearchCompletion>) -> (r: Option<
        Result<Vec<AnimalData>, FetchError>,
    >)
        requires
            old(self).wf(),
        ensures
            final(self).wf(),
            (*final(self), r) == poll_spec(*old(self), c),
            r is Some ==> final(self).current is None,
            r is None ==> *final(self) == *old(self),
    {
        match c {
            None => None,
            Some(sc) => {
                let accept = match &self.current {
                    Some(cur) => cur.id == sc.token.id,
                    None => false,
                };
                if accept {
                    self.current = None;
                    Some(sc.result)
                } else {
                    None
                }
            },
        }
    }
}

/// Law: at most one search is ever outstanding.  Issuing a second search
/// while one is in flight hands out a distinct token and replaces, rather
/// than queues, the first; when the superseded worker finally completes, its
/// completion is discarded and the dispatcher is left untouched.
pub proof fn lemma_superseded_search_discarded(
    d: FetchDispatcher,
    result: Result<Vec<AnimalData>, FetchError>,
)
    requires
        d.wf(),
        d.next_id + 1 < u64::MAX,
    ensures
        ({
            let (d1, t1) = start_search_spec(d);
            let (d2, t2) = start_search_spec(d1);
            &&& t1 != t2
            &&& d2.current == Some(t2)
            &&& poll_spec(d2, Some(SearchCompletion { token: t1, result })) == (
                d2,
                Option::<Result<Vec<AnimalData>, FetchError>>::None,
            )
        }),
{
}

} // verus!
