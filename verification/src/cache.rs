use vstd::prelude::*;

verus! {

/// What the cache records for one photo identifier: a decode worker is in
/// flight, or a render-ready texture handle, or a failed fetch or decode.
#[derive(Clone, Copy, PartialEq, Eq, Structural, Debug)]
pub enum CacheState {
    Pending,
    Ready(u64),
    Failed,
}

/// What a finished decode worker reports: the texture handle the UI sink
/// handed back for the decoded bitmap, or failure at either step.
#[derive(Clone, Copy, PartialEq, Eq, Structural, Debug)]
pub enum ImageOutcome {
    Loaded(u64),
    Failed,
}

/// What a decode worker sends back over its one-shot channel.  `epoch` is the
/// cache epoch under which the worker was spawned; a completion from before
/// the latest `clear` carries an older epoch and is discarded on arrival.
pub struct ImageCompletion {
    pub url: String,
    pub epoch: u64,
    pub outcome: ImageOutcome,
}

/// What a `request` call asks of the caller: reuse the texture, wait for the
/// worker already in flight, accept the recorded failure, or spawn exactly
/// one new decode worker.
#[derive(Clone, Copy, PartialEq, Eq, Structural, Debug)]
pub enum RequestAction {
    Ready(u64),
    Pending,
    Failed,
    Spawn,
}

/// The cache as the contracts see it: a finite map from photo identifier to
/// entry state, plus the current epoch.
#[verifier::ext_equal]
pub ghost struct CacheModel {
    pub map: Map<Seq<char>, CacheState>,
    pub epoch: nat,
}

/// The map that an association list denotes; a later entry for the same key
/// would shadow an earlier one, but a well-formed cache never holds two.
pub open spec fn map_of(s: Seq<(String, CacheState)>) -> Map<Seq<char>, CacheState>
    decreases s.len(),
{
    if s.len() == 0 {
        Map::empty()
    } else {
        map_of(s.drop_last()).insert(s.last().0@, s.last().1)
    }
}

/// No photo identifier occurs twice, so the mapping can never hold two
/// different texture handles for the same identifier.
pub open spec fn unique_keys(s: Seq<(String, CacheState)>) -> bool {
    forall|i: int, j: int| 0 <= i < j < s.len() ==> s[i].0@ != s[j].0@
}

pub open spec fn outcome_state(o: ImageOutcome) -> CacheState {
    match o {
        ImageOutcome::Loaded(t) => CacheState::Ready(t),
        ImageOutcome::Failed => CacheState::Failed,
    }
}

/// Clearing discards every entry and opens a new epoch; in-flight workers are
/// left to finish, but their completions carry the old epoch and will no
/// longer apply.
pub open spec fn clear_model(m: CacheModel) -> CacheModel {
    CacheModel { map: Map::empty(), epoch: m.epoch + 1 }
}

/// Requesting an identifier: an existing entry is answered from the map and
/// changes nothing; only an absent identifier spawns a worker and becomes
/// `Pending`.
pub open spec fn request_model(m: CacheModel, url: Seq<char>) -> (CacheModel, RequestAction) {
    if m.map.contains_key(url) {
        (
            m,
            match m.map[url] {
                CacheState::Pending => RequestAction::Pending,
                CacheState::Ready(t) => RequestAction::Ready(t),
                CacheState::Failed => RequestAction::Failed,
            },
        )
    } else {
        (
            CacheModel { map: m.map.insert(url, CacheState::Pending), epoch: m.epoch },
            RequestAction::Spawn,
        )
    }
}

/// A completion is applied only when it was spawned under the current epoch
/// and its identifier is still tracked as pending.
pub open spec fn completion_applies(m: CacheModel, c: ImageCompletion) -> bool {
    c.epoch == m.epoch && m.map.contains_key(c.url@) && m.map[c.url@] is Pending
}

/// Delivering one completion: applied, it settles the pending entry to
/// `Ready` or `Failed`; stale or unknown, it is a no-op, never a crash.
pub open spec fn deliver_model(m: CacheModel, c: ImageCompletion) -> CacheModel {
    if completion_applies(m, c) {
        CacheModel { map: m.map.insert(c.url@, outcome_state(c.outcome)), epoch: m.epoch }
    } else {
        m
    }
}

/// The cache after the first `n` completions of `cs` have been delivered.
pub open spec fn deliver_prefix(m: CacheModel, cs: Seq<ImageCompletion>, n: int) -> CacheModel
    decreases n,
{
    if n <= 0 {
        m
    } else {
        deliver_model(deliver_prefix(m, cs, n - 1), cs[n - 1])
    }
}

/// The (identifier, settled state) pairs that delivering the first `n`
/// completions of `cs` surfaces, in delivery order.
pub open spec fn surfaced_prefix(m: CacheModel, cs: Seq<ImageCompletion>, n: int) -> Seq<
    (Seq<char>, CacheState),
>
    decreases n,
{
    if n <= 0 {
        Seq::empty()
    } else {
        let before = deliver_prefix(m, cs, n - 1);
        let acc = surfaced_prefix(m, cs, n - 1);
        if completion_applies(before, cs[n - 1]) {
            acc.push((cs[n - 1].url@, outcome_state(cs[n - 1].outcome)))
        } else {
            acc
        }
    }
}

/// The cache after requesting every identifier of `urls` in order, paired
/// with the sub-list of identifiers for which a worker was spawned: each
/// identifier at most once, however often it occurs.
pub open spec fn request_all_model(m: CacheModel, urls: Seq<Seq<char>>) -> (
    CacheModel,
    Seq<Seq<char>>,
)
    decreases urls.len(),
{
    if urls.len() == 0 {
        (m, Seq::empty())
    } else {
        let (m1, sp) = request_all_model(m, urls.drop_last());
        let (m2, act) = request_model(m1, urls.last());
        (
            m2,
            if act is Spawn {
                sp.push(urls.last())
            } else {
                sp
            },
        )
    }
}

/// True while some decode worker is still outstanding.
pub open spec fn any_pending(m: Map<Seq<char>, CacheState>) -> bool {
    exists|k: Seq<char>| #[trigger] m.contains_key(k) && m[k] is Pending
}

/// Maps a photo identifier to the state of its texture, deduplicating decode
/// work per identifier: at most one worker is ever in flight for one
/// identifier, and completions of workers superseded by `clear` are ignored.
pub struct ImageCache {
    pub entries: Vec<(String, CacheState)>,
    pub epoch: u64,
}

impl View for ImageCache {
    type V = CacheModel;

    open spec fn view(&self) -> CacheModel {
        CacheModel { map: map_of(self.entries@), epoch: self.epoch as nat }
    }
}

proof fn lemma_map_of_contains(s: Seq<(String, CacheState)>, k: Seq<char>)
    ensures
        map_of(s).contains_key(k) <==> (exists|i: int| 0 <= i < s.len() && s[i].0@ == k),
    decreases s.len(),
{
    if s.len() > 0 {
        lemma_map_of_contains(s.drop_last(), k);
        if map_of(s).contains_key(k) {
            if s.last().0@ == k {
                assert(s[s.len() - 1].0@ == k);
            } else {
                let i = choose|i: int|
                    0 <= i < s.drop_last().len() && s.drop_last()[i].0@ == k;
                assert(s[i].0@ == k);
            }
        }
        if exists|i: int| 0 <= i < s.len() && s[i].0@ == k {
            let i = choose|i: int| 0 <= i < s.len() && s[i].0@ == k;
            if i < s.len() - 1 {
                assert(s.drop_last()[i].0@ == k);
            }
        }
    }
}

proof fn lemma_map_of_index(s: Seq<(String, CacheState)>, i: int)
    requires
        unique_keys(s),
        0 <= i < s.len(),
    ensures
        map_of(s).contains_key(s[i].0@),
        map_of(s)[s[i].0@] == s[i].1,
    decreases s.len(),
{
    if i == s.len() - 1 {
    } else {
        assert(unique_keys(s.drop_last())) by {
            assert(forall|p: int, q: int|
                0 <= p < q < s.drop_last().len() ==> s.drop_last()[p] == s[p]
                    && s.drop_last()[q] == s[q]);
        }
        lemma_map_of_index(s.drop_last(), i);
        assert(s.drop_last()[i] == s[i]);
        assert(s.last().0@ != s[i].0@);
    }
}

proof fn lemma_map_of_update(s: Seq<(String, CacheState)>, i: int, v: CacheState)
    requires
        unique_keys(s),
        0 <= i < s.len(),
    ensures
        unique_keys(s.update(i, (s[i].0, v))),
        map_of(s.update(i, (s[i].0, v))) == map_of(s).insert(s[i].0@, v),
    decreases s.len(),
{
    let k = s[i].0@;
    let s2 = s.update(i, (s[i].0, v));
    assert(forall|j: int| 0 <= j < s.len() ==> s2[j].0@ == s[j].0@);
    if i == s.len() - 1 {
        assert(s2.drop_last() =~= s.drop_last());
        assert(s2.last() == (s[i].0, v));
        assert(map_of(s2) == map_of(s.drop_last()).insert(k, v));
        assert(map_of(s.drop_last()).insert(k, s[i].1).insert(k, v) =~= map_of(
            s.drop_last(),
        ).insert(k, v));
        assert(map_of(s).insert(k, v) == map_of(s.drop_last()).insert(k, s.last().1).insert(k, v));
    } else {
        assert(unique_keys(s.drop_last())) by {
            assert(forall|p: int, q: int|
                0 <= p < q < s.drop_last().len() ==> s.drop_last()[p] == s[p]
                    && s.drop_last()[q] == s[q]);
        }
        assert(s2.drop_last() =~= s.drop_last().update(i, (s[i].0, v))) by {
            assert(forall|j: int|
                0 <= j < s.len() - 1 ==> s2.drop_last()[j] == s.drop_last().update(
                    i,
                    (s[i].0, v),
                )[j]);
        }
        assert(s.drop_last()[i] == s[i]);
        lemma_map_of_update(s.drop_last(), i, v);
        assert(s2.last() == s.last());
        let lastk = s.last().0@;
        assert(lastk != k);
        assert(map_of(s2) == map_of(s.drop_last()).insert(k, v).insert(lastk, s.last().1));
        assert(map_of(s.drop_last()).insert(k, v).insert(lastk, s.last().1) =~= map_of(
            s.drop_last(),
        ).insert(lastk, s.last().1).insert(k, v));
    }
}

proof fn lemma_map_of_len(s: Seq<(String, CacheState)>)
    requires
        unique_keys(s),
    ensures
        map_of(s).dom().finite(),
        map_of(s).len() == s.len(),
    decreases s.len(),
{
    if s.len() == 0 {
        assert(map_of(s).dom() =~= Set::<Seq<char>>::empty());
    } else {
        assert(unique_keys(s.drop_last())) by {
            assert(forall|p: int, q: int|
                0 <= p < q < s.drop_last().len() ==> s.drop_last()[p] == s[p]
                    && s.drop_last()[q] == s[q]);
        }
        lemma_map_of_len(s.drop_last());
        lemma_map_of_contains(s.drop_last(), s.last().0@);
        assert(forall|i: int|
            0 <= i < s.drop_last().len() ==> s.drop_last()[i] == s[i]);
        assert(!map_of(s.drop_last()).contains_key(s.last().0@));
        assert(map_of(s).dom() =~= map_of(s.drop_last()).dom().insert(s.last().0@));
        vstd::set::axiom_set_insert_finite(map_of(s.drop_last()).dom(), s.last().0@);
        vstd::set::axiom_set_insert_len(map_of(s.drop_last()).dom(), s.last().0@);
    }
}

/// Converts a worker's report into the entry state it settles to.
pub fn outcome_to_state(o: ImageOutcome) -> (s: CacheState)
    ensures
        s == outcome_state(o),
{
    match o {
        ImageOutcome::Loaded(t) => CacheState::Ready(t),
        ImageOutcome::Failed => CacheState::Failed,
    }
}

impl ImageCache {
    /// Entries never repeat an identifier.
    pub open spec fn wf(self) -> bool {
        unique_keys(self.entries@)
    }

    pub fn new() -> (c: Self)
        ensures
            c.wf(),
            c@.map == Map::<Seq<char>, CacheState>::empty(),
            c@.epoch == 0,
    {
        ImageCache { entries: Vec::new(), epoch: 0 }
    }

    /// How many identifiers the cache currently tracks.
    pub fn entry_count(&self) -> (n: usize)
        requires
            self.wf(),
        ensures
            n == self@.map.len(),
    {
        proof {
            lemma_map_of_len(self.entries@);
        }
        self.entries.len()
    }

    /// The state recorded for an identifier, if it is tracked at all.
    pub fn get(&self, url: &String) -> (r: Option<CacheState>)
        requires
            self.wf(),
        ensures
            r == if self@.map.contains_key(url@) {
                Some(self@.map[url@])
            } else {
                None::<CacheState>
            },
    {
        let n = self.entries.len();
        let mut i: usize = 0;
        while i < n
            invariant
                self.wf(),
                n == self.entries@.len(),
                0 <= i <= n,
                forall|j: int| 0 <= j < i ==> self.entries@[j].0@ != url@,
            decreases n - i,
        {
            if self.entries[i].0 == *url {
                proof {
                    lemma_map_of_index(self.entries@, i as int);
                }
                return Some(self.entries[i].1);
            }
            i += 1;
        }
        proof {
            lemma_map_of_contains(self.entries@, url@);
        }
        None
    }

    /// True while some decode worker is still outstanding.
    pub fn has_pending(&self) -> (r: bool)
        requires
            self.wf(),
        ensures
            r == any_pending(self@.map),
    {
        let n = self.entries.len();
        let mut i: usize = 0;
        while i < n
            invariant
                self.wf(),
                n == self.entries@.len(),
                0 <= i <= n,
                forall|j: int| 0 <= j < i ==> !(self.entries@[j].1 is Pending),
            decreases n - i,
        {
            let pending = match self.entries[i].1 {
                CacheState::Pending => true,
                _ => false,
            };
            if pending {
                proof {
                    lemma_map_of_index(self.entries@, i as int);
                }
                return true;
            }
            i += 1;
        }
        proof {
            assert forall|k: Seq<char>| #[trigger]
                map_of(self.entries@).contains_key(k) implies !(map_of(self.entries@)[k]
                is Pending) by {
                lemma_map_of_contains(self.entries@, k);
                let j = choose|j: int| 0 <= j < self.entries@.len() && self.entries@[j].0@ == k;
                lemma_map_of_index(self.entries@, j);
            }
        }
        false
    }

    /// Discards every entry and opens a new epoch; in-flight workers are
    /// abandoned, not killed, and their late completions will not apply.
    pub fn clear(&mut self)
        requires
            old(self).wf(),
            old(self).epoch < u64::MAX,
        ensures
            final(self).wf(),
            final(self)@ == clear_model(old(self)@),
    {
        self.entries.clear();
        self.epoch = self.epoch + 1;
        proof {
            assert(final(self)@ =~= clear_model(old(self)@));
        }
    }

    /// Answers from the cache when the identifier is tracked; otherwise
    /// records it `Pending` and directs the caller to spawn exactly one
    /// decode worker, under the current epoch.
    pub fn request(&mut self, url: &String) -> (r: RequestAction)
        requires
            old(self).wf(),
        ensures
            final(self).wf(),
            final(self)@ == request_model(old(self)@, url@).0,
            r == request_model(old(self)@, url@).1,
            r is Spawn <==> !old(self)@.map.contains_key(url@),
            !(r is Spawn) ==> *final(self) == *old(self),
            final(self).epoch == old(self).epoch,
    {
        let n = self.entries.len();
        let mut i: usize = 0;
        while i < n
            invariant
                self.wf(),
                *self == *old(self),
                n == self.entries@.len(),
                0 <= i <= n,
                forall|j: int| 0 <= j < i ==> self.entries@[j].0@ != url@,
            decreases n - i,
        {
            if self.entries[i].0 == *url {
                proof {
                    lemma_map_of_index(self.entries@, i as int);
                }
                return match self.entries[i].1 {
                    CacheState::Pending => RequestAction::Pending,
                    CacheState::Ready(t) => RequestAction::Ready(t),
                    CacheState::Failed => RequestAction::Failed,
                };
            }
            i += 1;
        }
        proof {
            lemma_map_of_contains(self.entries@, url@);
        }
        let ghost s = self.entries@;
        self.entries.push((url.clone(), CacheState::Pending));
        proof {
            assert(self.entries@.drop_last() =~= s);
            assert(map_of(self.entries@) == map_of(s).insert(url@, CacheState::Pending));
            assert(final(self)@ =~= request_model(old(self)@, url@).0);
        }
        RequestAction::Spawn
    }

    /// Applies one worker completion: only a completion spawned under the
    /// current epoch for an identifier still pending settles that entry;
    /// anything stale or unknown is discarded without touching the cache.
    /// Returns whether the completion was applied.
    pub fn deliver(&mut self, url: &String, epoch: u64, outcome: ImageOutcome) -> (applied: bool)
        requires
            old(self).wf(),
        ensures
            final(self).wf(),
            final(self)@ == deliver_model(
                old(self)@,
                ImageCompletion { url: *url, epoch, outcome },
            ),
            applied == completion_applies(
                old(self)@,
                ImageCompletion { url: *url, epoch, outcome },
            ),
            !applied ==> *final(self) == *old(self),
    {
        if epoch != self.epoch {
            return false;
        }
        let n = self.entries.len();
        let mut i: usize = 0;
        while i < n
            invariant
                self.wf(),
                *self == *old(self),
                epoch == self.epoch,
                n == self.entries@.len(),
                0 <= i <= n,
                forall|j: int| 0 <= j < i ==> self.entries@[j].0@ != url@,
            decreases n - i,
        {
            if self.entries[i].0 == *url {
                proof {
                    lemma_map_of_index(self.entries@, i as int);
                }
                let pending = match self.entries[i].1 {
                    CacheState::Pending => true,
                    _ => false,
                };
                if pending {
                    let ghost s = self.entries@;
                    let key = self.entries[i].0.clone();
                    self.entries[i] = (key, outcome_to_state(outcome));
                    proof {
                        assert(self.entries@ == s.update(
                            i as int,
                            (s[i as int].0, outcome_state(outcome)),
                        ));
                        lemma_map_of_update(s, i as int, outcome_state(outcome));
                        assert(final(self)@ =~= deliver_model(
                            old(self)@,
                            ImageCompletion { url: *url, epoch, outcome },
                        ));
                    }
                    return true;
                }
                return false;
            }
            i += 1;
        }
        proof {
            lemma_map_of_contains(self.entries@, url@);
        }
        false
    }

    /// Non-blocking drain: delivers every completion that arrived this frame
    /// and returns, in order, the identifiers it settled with their new
    /// states.  Stale completions are dropped on the way.
    pub fn poll_all(&mut self, completions: &Vec<ImageCompletion>) -> (surfaced: Vec<
        (String, CacheState),
    >)
        requires
            old(self).wf(),
        ensures
            final(self).wf(),
            final(self)@ == deliver_prefix(old(self)@, completions@, completions@.len() as int),
            surfaced@.map_values(|p: (String, CacheState)| (p.0@, p.1)) == surfaced_prefix(
                old(self)@,
                completions@,
                completions@.len() as int,
            ),
    {
        let n = completions.len();
        let mut surfaced: Vec<(String, CacheState)> = Vec::new();
        let mut i: usize = 0;
        while i < n
            invariant
                self.wf(),
                n == completions@.len(),
                0 <= i <= n,
                self@ == deliver_prefix(old(self)@, completions@, i as int),
                surfaced@.map_values(|p: (String, CacheState)| (p.0@, p.1)) == surfaced_prefix(
                    old(self)@,
                    completions@,
                    i as int,
                ),
            decreases n - i,
        {
            let c = &completions[i];
            let applied = self.deliver(&c.url, c.epoch, c.outcome);
            if applied {
                surfaced.push((c.url.clone(), outcome_to_state(c.outcome)));
            }
            proof {
                assert(completions@[i as int] == ImageCompletion {
                    url: completions@[i as int].url,
                    epoch: completions@[i as int].epoch,
                    outcome: completions@[i as int].outcome,
                });
                assert(surfaced@.map_values(|p: (String, CacheState)| (p.0@, p.1))
                    =~= surfaced_prefix(old(self)@, completions@, i + 1));
            }
            i += 1;
        }
        surfaced
    }
}

/// Law: requesting the same identifier twice before its first decode
/// completes spawns exactly one worker.  The first request (on an untracked
/// identifier) spawns and records `Pending`; the second finds that entry,
/// spawns nothing and leaves the cache exactly as it was.
pub proof fn lemma_duplicate_request_spawns_once(m: CacheModel, url: Seq<char>)
    ensures
        ({
            let (m1, a1) = request_model(m, url);
            let (m2, a2) = request_model(m1, url);
            &&& (!m.map.contains_key(url) ==> a1 is Spawn)
            &&& !(a2 is Spawn)
            &&& m2 == m1
            &&& (a1 is Spawn ==> a2 is Pending)
        }),
{
}

/// Law: a `clear` supersedes every outstanding image request.  Any spawn
/// directive handed out before the clear carries an epoch at most the old
/// one, so its completion, arriving after the clear, applies nothing and is
/// never surfaced: no entry requested before the clear can reappear.
pub proof fn lemma_clear_discards_stale_completion(m: CacheModel, c: ImageCompletion)
    requires
        c.epoch <= m.epoch,
    ensures
        !completion_applies(clear_model(m), c),
        deliver_model(clear_model(m), c) == clear_model(m),
{
}

/// Delivering completions never moves the epoch: only `clear` does.
pub proof fn lemma_deliver_prefix_epoch(m: CacheModel, cs: Seq<ImageCompletion>, n: int)
    ensures
        deliver_prefix(m, cs, n).epoch == m.epoch,
    decreases n,
{
    if n > 0 {
        lemma_deliver_prefix_epoch(m, cs, n - 1);
    }
}

} // verus!
