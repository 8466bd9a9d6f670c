use vstd::prelude::*;

use crate::cache::{
    any_pending, clear_model, deliver_prefix, request_all_model, surfaced_prefix, CacheState,
    ImageCache, ImageCompletion, RequestAction,
};
use crate::dispatch::{
    poll_spec, start_search_spec, FetchDispatcher, LoadToken, SearchCompletion,
};
use crate::errors::FetchError;
use crate::petfinder::AnimalData;

verus! {

/// A user navigation: one view page backwards or forwards.
#[derive(Clone, Copy, PartialEq, Eq, Structural, Debug)]
pub enum Direction {
    Prev,
    Next,
}

/// What one remote fetch asks the directory for.  Two queries with the same
/// location and page would return the same remote page, which is why a page
/// already held in the window is never fetched again.
pub struct SearchQuery {
    pub location: String,
    pub page: u32,
}

/// A fetch the caller must now perform: spawn one worker for `query` and
/// report its completion under `token`.
pub struct FetchRequest {
    pub query: SearchQuery,
    pub token: LoadToken,
}

/// What a navigation reports back: a remote fetch to start, if cached halves
/// did not suffice, and the scroll-to-top the UI owes the user.
pub struct NavEffects {
    pub fetch: Option<FetchRequest>,
    pub scroll_to_top: bool,
}

/// A decode worker the caller must now spawn: fetch the bytes behind `url`,
/// decode them, and report the completion under `epoch`.
pub struct SpawnImage {
    pub url: String,
    pub epoch: u64,
}

/// What one frame's poll reports back: decode workers to spawn, whether a new
/// remote page was merged, the search failure surfaced this frame if any, and
/// the image entries that settled.
pub struct PollEffects {
    pub spawns: Vec<SpawnImage>,
    pub merged: bool,
    pub error: Option<FetchError>,
    pub settled: Vec<(String, CacheState)>,
}

/// One remote page response, split into the two halves the UI shows as two
/// view pages.  The window is refilled wholesale when a remote page arrives
/// and never edited otherwise.  An odd record is kept in the first half; an
/// empty second half is valid and simply shows no cards.
pub struct PageWindow {
    pub records: Vec<AnimalData>,
    pub remote_page: u32,
}

impl PageWindow {
    /// Where the response splits: the first half takes the odd record.
    pub open spec fn split_spec(self) -> int {
        (self.records@.len() as int + 1) / 2
    }

    pub open spec fn first_half(self) -> Seq<AnimalData> {
        self.records@.subrange(0, self.split_spec())
    }

    pub open spec fn second_half(self) -> Seq<AnimalData> {
        self.records@.subrange(self.split_spec(), self.records@.len() as int)
    }

    pub fn empty() -> (w: Self)
        ensures
            w.records@.len() == 0,
            w.remote_page == 1,
    {
        PageWindow { records: Vec::new(), remote_page: 1 }
    }

    pub fn split_point(&self) -> (n: usize)
        ensures
            n as int == self.split_spec(),
            n as int <= self.records@.len(),
    {
        self.records.len() / 2 + self.records.len() % 2
    }
}

/// Law: the two halves of a page window together are exactly the one remote
/// page response that produced it, in order, with nothing added or dropped.
pub proof fn lemma_window_halves_complete(w: PageWindow)
    ensures
        w.first_half() + w.second_half() == w.records@,
{
    assert(w.first_half() + w.second_half() =~= w.records@);
}

/// The half of the current remote page that view page `v` shows.
pub open spec fn side_of(v: int) -> int {
    (v - 1) % 2
}

/// The remote page that view page `v` lies on: two view pages per remote page.
pub open spec fn remote_page_of(v: int) -> int {
    (v - 1) / 2 + 1
}

/// One backward navigation: view page 1 is a floor, going back from it is a
/// no-op.
pub open spec fn prev_view(v: int) -> int {
    if v > 1 {
        v - 1
    } else {
        v
    }
}

/// One forward navigation: always one view page ahead.
pub open spec fn next_view(v: int) -> int {
    v + 1
}

/// The view page after `n` forward navigations from `v`.
pub open spec fn iter_next(v: int, n: nat) -> int
    decreases n,
{
    if n == 0 {
        v
    } else {
        iter_next(next_view(v), (n - 1) as nat)
    }
}

/// The view page after `n` backward navigations from `v`.
pub open spec fn iter_prev(v: int, n: nat) -> int
    decreases n,
{
    if n == 0 {
        v
    } else {
        iter_prev(prev_view(v), (n - 1) as nat)
    }
}

proof fn lemma_iter_next_adds(v: int, n: nat)
    ensures
        iter_next(v, n) == v + n,
    decreases n,
{
    if n > 0 {
        lemma_iter_next_adds(v + 1, (n - 1) as nat);
    }
}

/// Law: any run of `n` forward navigations followed by `n` backward
/// navigations restores the starting view page, and with it the starting
/// (remote page, side), provided no search intervenes.
pub proof fn lemma_navigation_round_trip(v: int, n: nat)
    requires
        v >= 1,
    ensures
        iter_prev(iter_next(v, n), n) == v,
        remote_page_of(iter_prev(iter_next(v, n), n)) == remote_page_of(v),
        side_of(iter_prev(iter_next(v, n), n)) == side_of(v),
    decreases n,
{
    lemma_iter_next_adds(v, n);
    if n > 0 {
        assert(prev_view(v + n) == v + n - 1);
        lemma_navigation_round_trip(v, (n - 1) as nat);
        lemma_iter_next_adds(v, (n - 1) as nat);
    }
}

/// The photo identifiers of a remote page, in record order, one per record
/// that carries one.
pub open spec fn photo_urls(rs: Seq<AnimalData>) -> Seq<Seq<char>>
    decreases rs.len(),
{
    if rs.len() == 0 {
        Seq::empty()
    } else {
        let rest = photo_urls(rs.drop_last());
        match rs.last().photo_url {
            Option::Some(u) => rest.push(u@),
            Option::None => rest,
        }
    }
}

/// The location a query actually uses: an empty search box falls back to the
/// default location.
pub open spec fn effective_location(loc: Seq<char>) -> Seq<char> {
    if loc.len() == 0 {
        "San Diego, CA"@
    } else {
        loc
    }
}

fn effective_location_exec(location: &String) -> (r: String)
    ensures
        r@ == effective_location(location@),
{
    if location.as_str().is_empty() {
        "San Diego, CA".to_owned()
    } else {
        location.clone()
    }
}

/// The state machine behind the render loop: translates searches and
/// navigations into either local view shifts or remote fetches, merges
/// completions delivered by the caller, and owns the page window, the view
/// position and the image cache.  It never blocks: all waiting happens in
/// workers outside; every operation here is one non-blocking step.
pub struct PaginationController {
    /// The search box contents as last submitted.
    pub location: String,
    /// The user-facing page number, 1-based; two view pages per remote page.
    pub view_page: u32,
    /// True while a search or any image for the current page is outstanding.
    pub loading: bool,
    /// The two halves of the remote page last merged.
    pub window: PageWindow,
    /// Tracks the one search that may be outstanding.
    pub dispatcher: FetchDispatcher,
    /// Texture state per photo identifier of the current page.
    pub cache: ImageCache,
}

impl PaginationController {
    pub open spec fn wf(self) -> bool {
        &&& self.view_page >= 1
        &&& self.dispatcher.wf()
        &&& self.cache.wf()
    }

    /// Which half of the current remote page is visible: 0 or 1.
    pub open spec fn spec_side(self) -> int {
        side_of(self.view_page as int)
    }

    /// The remote page the view currently lies on.
    pub open spec fn spec_remote_page(self) -> int {
        remote_page_of(self.view_page as int)
    }

    pub fn new() -> (c: Self)
        ensures
            c.wf(),
            c.view_page == 1,
            c.spec_side() == 0,
            c.spec_remote_page() == 1,
            c.loading == false,
            c.window.records@.len() == 0,
            c.window.remote_page == 1,
            c.dispatcher.current is None,
            c.dispatcher.next_id == 0,
            c.cache@.map == Map::<Seq<char>, CacheState>::empty(),
            c.cache@.epoch == 0,
            c.location@.len() == 0,
    {
        PaginationController {
            location: String::new(),
            view_page: 1,
            loading: false,
            window: PageWindow::empty(),
            dispatcher: FetchDispatcher::new(),
            cache: ImageCache::new(),
        }
    }

    /// Which half of the current remote page is visible: 0 or 1.
    pub fn side(&self) -> (s: u32)
        requires
            self.wf(),
        ensures
            s as int == self.spec_side(),
            s <= 1,
    {
        (self.view_page - 1) % 2
    }

    /// The remote page the view currently lies on.
    pub fn remote_page(&self) -> (p: u32)
        requires
            self.wf(),
        ensures
            p as int == self.spec_remote_page(),
            p >= 1,
    {
        (self.view_page - 1) / 2 + 1
    }

    /// The index range of `window.records` that the current side shows.
    pub fn visible_range(&self) -> (r: (usize, usize))
        requires
            self.wf(),
        ensures
            r.0 <= r.1,
            r.1 as int <= self.window.records@.len(),
            self.spec_side() == 0 ==> r.0 == 0 && r.1 as int == self.window.split_spec(),
            self.spec_side() == 1 ==> r.0 as int == self.window.split_spec() && r.1 as int
                == self.window.records@.len(),
    {
        let split = self.window.split_point();
        if self.side() == 0 {
            (0, split)
        } else {
            (split, self.window.records.len())
        }
    }

    /// A fresh search: back to view page 1, side 0, remote page 1; the image
    /// cache is cleared and the previous search, if any, is superseded.  The
    /// caller owes one search worker for the returned request.  The window
    /// keeps showing the last good page until the new one arrives.
    pub fn search(&mut self, location: String) -> (req: FetchRequest)
        requires
            old(self).wf(),
            old(self).dispatcher.next_id < u64::MAX,
            old(self).cache.epoch < u64::MAX,
        ensures
            final(self).wf(),
            final(self).view_page == 1,
            final(self).spec_side() == 0,
            final(self).spec_remote_page() == 1,
            final(self).location == location,
            final(self).loading == true,
            final(self).window == old(self).window,
            final(self).cache@ == clear_model(old(self).cache@),
            (final(self).dispatcher, req.token) == start_search_spec(old(self).dispatcher),
            req.query.page == 1,
            req.query.location@ == effective_location(location@),
    {
        self.location = location;
        self.view_page = 1;
        self.loading = true;
        self.cache.clear();
        let token = self.dispatcher.start_search();
        let query_location = effective_location_exec(&self.location);
        FetchRequest { query: SearchQuery { location: query_location, page: 1 }, token }
    }

    /// One navigation step.  Next always advances one view page; Prev stops
    /// at view page 1.  When the step stays within the two halves already
    /// held, no fetch is issued; when it crosses a remote page boundary, the
    /// previous search is superseded and the caller owes one worker for the
    /// returned fetch.  Every call owes the UI a scroll to the top.
    pub fn navigate(&mut self, dir: Direction) -> (eff: NavEffects)
        requires
            old(self).wf(),
            old(self).view_page < u32::MAX,
            old(self).dispatcher.next_id < u64::MAX,
        ensures
            final(self).wf(),
            eff.scroll_to_top == true,
            final(self).location == old(self).location,
            final(self).window == old(self).window,
            final(self).cache == old(self).cache,
            dir is Next ==> final(self).view_page as int == next_view(old(self).view_page as int),
            dir is Prev ==> final(self).view_page as int == prev_view(old(self).view_page as int),
            (eff.fetch is Some) <==> ((dir is Next && old(self).spec_side() == 1) || (dir is Prev
                && old(self).view_page > 1 && old(self).spec_side() == 0)),
            eff.fetch is Some ==> ({
                &&& (final(self).dispatcher, eff.fetch->Some_0.token) == start_search_spec(
                    old(self).dispatcher,
                )
                &&& eff.fetch->Some_0.query.page as int == final(self).spec_remote_page()
                &&& eff.fetch->Some_0.query.location@ == effective_location(old(self).location@)
                &&& final(self).loading == true
            }),
            eff.fetch is None ==> final(self).dispatcher == old(self).dispatcher
                && final(self).loading == old(self).loading,
    {
        let crossing: bool;
        match dir {
            Direction::Next => {
                let s = self.side();
                self.view_page = self.view_page + 1;
                crossing = s == 1;
            },
            Direction::Prev => {
                if self.view_page > 1 {
                    let s = self.side();
                    self.view_page = self.view_page - 1;
                    crossing = s == 0;
                } else {
                    crossing = false;
                }
            },
        }
        if crossing {
            self.loading = true;
            let token = self.dispatcher.start_search();
            let page = self.remote_page();
            let query_location = effective_location_exec(&self.location);
            NavEffects {
                fetch: Some(
                    FetchRequest { query: SearchQuery { location: query_location, page }, token },
                ),
                scroll_to_top: true,
            }
        } else {
            NavEffects { fetch: None, scroll_to_top: true }
        }
    }

    /// One frame's poll, never blocking.  The caller hands in whatever its
    /// channels held: at most one search completion and the image completions
    /// that arrived.  A completion of the current search either merges a new
    /// window (rebuilding the cache and directing one decode worker per
    /// distinct photo identifier) or surfaces its error and changes nothing
    /// else; a stale completion is discarded.  Image completions are applied
    /// through the cache's staleness rules, and `loading` becomes false
    /// exactly when no search and no image work remains outstanding.
    pub fn poll(
        &mut self,
        completion: Option<SearchCompletion>,
        images: &Vec<ImageCompletion>,
    ) -> (eff: PollEffects)
        requires
            old(self).wf(),
            old(self).cache.epoch < u64::MAX,
        ensures
            final(self).wf(),
            final(self).dispatcher == poll_spec(old(self).dispatcher, completion).0,
            final(self).view_page == old(self).view_page,
            final(self).location == old(self).location,
            final(self).loading == (final(self).dispatcher.current is Some || any_pending(
                final(self).cache@.map,
            )),
            ({
                let res = poll_spec(old(self).dispatcher, completion).1;
                &&& (res is None ==> ({
                    &&& final(self).window == old(self).window
                    &&& eff.merged == false
                    &&& eff.error is None
                    &&& eff.spawns@.len() == 0
                    &&& final(self).cache@ == deliver_prefix(
                        old(self).cache@,
                        images@,
                        images@.len() as int,
                    )
                    &&& eff.settled@.map_values(|p: (String, CacheState)| (p.0@, p.1))
                        == surfaced_prefix(old(self).cache@, images@, images@.len() as int)
                }))
                &&& (res matches Some(Err(e)) ==> ({
                    &&& final(self).window == old(self).window
                    &&& eff.merged == false
                    &&& eff.error == Some(e)
                    &&& eff.spawns@.len() == 0
                    &&& final(self).cache@ == deliver_prefix(
                        old(self).cache@,
                        images@,
                        images@.len() as int,
                    )
                    &&& eff.settled@.map_values(|p: (String, CacheState)| (p.0@, p.1))
                        == surfaced_prefix(old(self).cache@, images@, images@.len() as int)
                }))
                &&& (res matches Some(Ok(records)) ==> ({
                    let merged_cache = request_all_model(
                        clear_model(old(self).cache@),
                        photo_urls(records@),
                    );
                    &&& final(self).window.records == records
                    &&& final(self).window.remote_page as int == old(self).spec_remote_page()
                    &&& eff.merged == true
                    &&& eff.error is None
                    &&& eff.spawns@.map_values(|s: SpawnImage| s.url@) == merged_cache.1
                    &&& (forall|j: int|
                        0 <= j < eff.spawns@.len() ==> (#[trigger] eff.spawns@[j]).epoch
                            == old(self).cache@.epoch + 1)
                    &&& final(self).cache@ == deliver_prefix(
                        merged_cache.0,
                        images@,
                        images@.len() as int,
                    )
                    &&& eff.settled@.map_values(|p: (String, CacheState)| (p.0@, p.1))
                        == surfaced_prefix(merged_cache.0, images@, images@.len() as int)
                }))
            }),
    {
        let res = self.dispatcher.poll(completion);
        let mut spawns: Vec<SpawnImage> = Vec::new();
        let mut merged = false;
        let mut error: Option<FetchError> = None;
        match res {
            None => {},
            Some(Err(e)) => {
                error = Some(e);
            },
            Some(Ok(records)) => {
                let page = self.remote_page();
                self.window = PageWindow { records, remote_page: page };
                self.cache.clear();
                let ghost cleared = self.cache@;
                let ghost rs = self.window.records@;
                let ghost pre_loop = *self;
                let n = self.window.records.len();
                let mut i: usize = 0;
                while i < n
                    invariant
                        self.dispatcher == pre_loop.dispatcher,
                        self.view_page == pre_loop.view_page,
                        self.location == pre_loop.location,
                        self.loading == pre_loop.loading,
                        self.window == pre_loop.window,
                        self.cache.wf(),
                        n == rs.len(),
                        rs == self.window.records@,
                        0 <= i <= n,
                        self.cache@ == request_all_model(cleared, photo_urls(rs.subrange(0, i as int))).0,
                        spawns@.map_values(|s: SpawnImage| s.url@) == request_all_model(
                            cleared,
                            photo_urls(rs.subrange(0, i as int)),
                        ).1,
                        forall|j: int|
                            0 <= j < spawns@.len() ==> (#[trigger] spawns@[j]).epoch as nat
                                == cleared.epoch,
                        self.cache@.epoch == cleared.epoch,
                        self.cache.epoch as nat == cleared.epoch,
                    decreases n - i,
                {
                    proof {
                        assert(rs.subrange(0, (i + 1) as int).drop_last() =~= rs.subrange(
                            0,
                            i as int,
                        ));
                        assert(rs.subrange(0, (i + 1) as int).last() == rs[i as int]);
                    }
                    match &self.window.records[i].photo_url {
                        Some(u) => {
                            let url = u.clone();
                            proof {
                                let urls_now = photo_urls(rs.subrange(0, (i + 1) as int));
                                assert(urls_now.drop_last() =~= photo_urls(
                                    rs.subrange(0, i as int),
                                ));
                                assert(urls_now.last() == rs[i as int].photo_url->Some_0@);
                            }
                            let epoch = self.cache.epoch;
                            let act = self.cache.request(&url);
                            let spawn = match act {
                                RequestAction::Spawn => true,
                                _ => false,
                            };
                            if spawn {
                                spawns.push(SpawnImage { url, epoch });
                            }
                            proof {
                                assert(spawns@.map_values(|s: SpawnImage| s.url@)
                                    =~= request_all_model(
                                    cleared,
                                    photo_urls(rs.subrange(0, (i + 1) as int)),
                                ).1);
                            }
                        },
                        None => {},
                    }
                    i += 1;
                }
                proof {
                    assert(rs.subrange(0, n as int) =~= rs);
                }
                merged = true;
            },
        }
        let settled = self.cache.poll_all(images);
        let searching = self.dispatcher.is_searching();
        let pending = self.cache.has_pending();
        self.loading = searching || pending;
        PollEffects { spawns, merged, error, settled }
    }
}

} // verus!
