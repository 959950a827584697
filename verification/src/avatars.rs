//! The avatar scheduler: which avatars of the visible window are fetched,
//! which results still apply, and the in-memory picture cache with its
//! least-recently-used eviction. Rendered pictures themselves are held by
//! the caller; the scheduler tells it which to keep and which to drop.
use vstd::prelude::*;

verus! {

/// Pictures kept in memory at most.
pub const AVATAR_CACHE_CAPACITY: usize = 32;

/// Worker threads that fetch avatars.
pub const AVATAR_WORKERS: usize = 2;

/// Milliseconds before a failed avatar of an unchanged window is retried.
pub const RETRY_COOLDOWN_MS: u64 = 30_000;

/// The contact or group whose picture is shown, by its stable key.
#[derive(Debug, PartialEq, Eq)]
pub struct AvatarTarget {
    pub key: String,
}

/// A copy of a target.
pub fn copy_target(t: &AvatarTarget) -> (r: AvatarTarget)
    ensures
        r.key@ == t.key@,
{
    AvatarTarget { key: t.key.clone() }
}

/// Anything stored per target.
pub trait Keyed {
    spec fn tk(&self) -> Seq<char>;

    fn target(&self) -> (t: &AvatarTarget)
        ensures
            t.key@ == self.tk(),
    ;
}

impl Keyed for AvatarTarget {
    open spec fn tk(&self) -> Seq<char> {
        self.key@
    }

    fn target(&self) -> (t: &AvatarTarget) {
        self
    }
}

/// The last failure of a target: in which window and when it may retry.
#[derive(Debug)]
pub struct FailureEntry {
    pub target: AvatarTarget,
    pub generation: u64,
    pub retry_at: u64,
}

impl Keyed for FailureEntry {
    open spec fn tk(&self) -> Seq<char> {
        self.target.key@
    }

    fn target(&self) -> (t: &AvatarTarget) {
        &self.target
    }
}

/// A picture held in memory, by its picture id.
#[derive(Debug)]
pub struct CachedPicture {
    pub target: AvatarTarget,
    pub picture_id: String,
}

impl Keyed for CachedPicture {
    open spec fn tk(&self) -> Seq<char> {
        self.target.key@
    }

    fn target(&self) -> (t: &AvatarTarget) {
        &self.target
    }
}

/// Some entry of `v` is for `k`.
pub open spec fn holds_key<E: Keyed>(v: Seq<E>, k: Seq<char>) -> bool {
    exists|i: int| 0 <= i < v.len() && #[trigger] v[i].tk() == k
}

/// No two entries of `v` are for the same target.
pub open spec fn unique<E: Keyed>(v: Seq<E>) -> bool {
    forall|i: int, j: int| 0 <= i < j < v.len() ==> v[i].tk() != v[j].tk()
}

/// The entry of `v` for `k`.
pub open spec fn entry_for<E: Keyed>(v: Seq<E>, k: Seq<char>) -> E {
    v[choose|i: int| 0 <= i < v.len() && #[trigger] v[i].tk() == k]
}

proof fn lemma_entry_for<E: Keyed>(v: Seq<E>, i: int)
    requires
        unique(v),
        0 <= i < v.len(),
    ensures
        entry_for(v, v[i].tk()) == v[i],
        holds_key(v, v[i].tk()),
{
    let k = v[i].tk();
    assert(v[i].tk() == k);
    let j = choose|j: int| 0 <= j < v.len() && #[trigger] v[j].tk() == k;
    if j != i {
        if j < i {
            assert(v[j].tk() != v[i].tk());
        } else {
            assert(v[i].tk() != v[j].tk());
        }
    }
}

fn find<E: Keyed>(v: &Vec<E>, t: &AvatarTarget) -> (r: Option<usize>)
    ensures
        r is None <==> !holds_key(v@, t.key@),
        r matches Some(i) ==> i < v.len() && v@[i as int].tk() == t.key@,
{
    let mut i: usize = 0;
    while i < v.len()
        invariant
            0 <= i <= v.len(),
            forall|j: int| 0 <= j < i ==> #[trigger] v@[j].tk() != t.key@,
        decreases v.len() - i,
    {
        if v[i].target().key == t.key {
            return Some(i);
        }
        i += 1;
    }
    None
}

fn contains_target<E: Keyed>(v: &Vec<E>, t: &AvatarTarget) -> (b: bool)
    ensures
        b == holds_key(v@, t.key@),
{
    find(v, t).is_some()
}

proof fn lemma_remove_at<E: Keyed>(v: Seq<E>, i: int)
    requires
        unique(v),
        0 <= i < v.len(),
    ensures
        unique(v.remove(i)),
        !holds_key(v.remove(i), v[i].tk()),
        forall|k: Seq<char>| k != v[i].tk() ==> holds_key(v.remove(i), k) == holds_key(v, k),
        forall|k: Seq<char>| k != v[i].tk() && holds_key(v, k) ==> entry_for(v.remove(i), k) == entry_for(v, k),
{
    let w = v.remove(i);
    assert forall|a: int, b: int| 0 <= a < b < w.len() implies w[a].tk() != w[b].tk() by {
        let a2 = if a < i { a } else { a + 1 };
        let b2 = if b < i { b } else { b + 1 };
        assert(w[a] == v[a2] && w[b] == v[b2]);
    }
    assert forall|j: int| 0 <= j < w.len() implies #[trigger] w[j].tk() != v[i].tk() by {
        let j2 = if j < i { j } else { j + 1 };
        assert(w[j] == v[j2]);
    }
    assert forall|k: Seq<char>| k != v[i].tk() implies holds_key(w, k) == holds_key(v, k) by {
        if holds_key(v, k) {
            let j = choose|j: int| 0 <= j < v.len() && #[trigger] v[j].tk() == k;
            let j2 = if j < i { j } else { j - 1 };
            assert(w[j2] == v[j]);
        }
        if holds_key(w, k) {
            let j = choose|j: int| 0 <= j < w.len() && #[trigger] w[j].tk() == k;
            let j2 = if j < i { j } else { j + 1 };
            assert(w[j] == v[j2]);
        }
    }
    assert forall|k: Seq<char>| k != v[i].tk() && holds_key(v, k) implies entry_for(w, k) == entry_for(v, k) by {
        let j = choose|j: int| 0 <= j < v.len() && #[trigger] v[j].tk() == k;
        let j2 = if j < i { j } else { j - 1 };
        assert(w[j2] == v[j]);
        lemma_entry_for(v, j);
        lemma_entry_for(w, j2);
    }
}

proof fn lemma_push_new<E: Keyed>(v: Seq<E>, e: E)
    requires
        unique(v),
        !holds_key(v, e.tk()),
    ensures
        unique(v.push(e)),
        holds_key(v.push(e), e.tk()),
        entry_for(v.push(e), e.tk()) == e,
        forall|k: Seq<char>| k != e.tk() ==> holds_key(v.push(e), k) == holds_key(v, k),
        forall|k: Seq<char>| k != e.tk() && holds_key(v, k) ==> entry_for(v.push(e), k) == entry_for(v, k),
{
    let w = v.push(e);
    assert forall|a: int, b: int| 0 <= a < b < w.len() implies w[a].tk() != w[b].tk() by {
        if b == v.len() {
            assert(w[a] == v[a]);
            assert(v[a].tk() == v[a].tk());
        }
    }
    lemma_entry_for(w, v.len() as int);
    assert forall|k: Seq<char>| k != e.tk() implies holds_key(w, k) == holds_key(v, k) by {
        if holds_key(v, k) {
            let j = choose|j: int| 0 <= j < v.len() && #[trigger] v[j].tk() == k;
            assert(w[j] == v[j]);
        }
        if holds_key(w, k) {
            let j = choose|j: int| 0 <= j < w.len() && #[trigger] w[j].tk() == k;
            assert(w[j] == v[j]);
        }
    }
    assert forall|k: Seq<char>| k != e.tk() && holds_key(v, k) implies entry_for(w, k) == entry_for(v, k) by {
        let j = choose|j: int| 0 <= j < v.len() && #[trigger] v[j].tk() == k;
        assert(w[j] == v[j]);
        lemma_entry_for(v, j);
        lemma_entry_for(w, j);
    }
}

/// Removes the entry for `t`, if any.
fn remove_target<E: Keyed>(v: &mut Vec<E>, t: &AvatarTarget)
    requires
        unique(old(v)@),
    ensures
        unique(final(v)@),
        !holds_key(final(v)@, t.key@),
        forall|k: Seq<char>| k != t.key@ ==> holds_key(final(v)@, k) == holds_key(old(v)@, k),
        forall|k: Seq<char>|
            k != t.key@ && holds_key(old(v)@, k) ==> entry_for(final(v)@, k) == entry_for(old(v)@, k),
        final(v).len() == old(v).len() - (if holds_key(old(v)@, t.key@) {
            1int
        } else {
            0int
        }),
{
    match find(v, t) {
        Some(i) => {
            proof {
                lemma_remove_at(v@, i as int);
            }
            v.remove(i);
        },
        None => {},
    }
}

/// Adds `t` unless already present.
fn insert_target(v: &mut Vec<AvatarTarget>, t: &AvatarTarget)
    requires
        unique(old(v)@),
    ensures
        unique(final(v)@),
        holds_key(final(v)@, t.key@),
        forall|k: Seq<char>| k != t.key@ ==> holds_key(final(v)@, k) == holds_key(old(v)@, k),
{
    if !contains_target(v, t) {
        let c = copy_target(t);
        proof {
            lemma_push_new(v@, c);
        }
        v.push(c);
    }
}

/// Whether a failed target may be fetched again: it never failed, or it
/// failed in another window, or its cooldown has passed.
pub open spec fn retry_allowed(failure: Option<(u64, u64)>, generation: u64, now: u64) -> bool {
    match failure {
        None => true,
        Some((failed_generation, retry_at)) => failed_generation != generation || now >= retry_at,
    }
}

/// Whether a failed target may be fetched again: it never failed, or it
/// failed in another window, or its cooldown has passed.
pub fn retry_eligible(failure: Option<(u64, u64)>, generation: u64, now: u64) -> (b: bool)
    ensures
        b == retry_allowed(failure, generation, now),
{
    match failure {
        None => true,
        Some((failed_generation, retry_at)) => failed_generation != generation || now >= retry_at,
    }
}

/// The keys of a list of targets, in order.
pub open spec fn target_keys(v: Seq<AvatarTarget>) -> Seq<Seq<char>> {
    v.map_values(|t: AvatarTarget| t.key@)
}

fn same_targets(a: &Vec<AvatarTarget>, b: &Vec<AvatarTarget>) -> (r: bool)
    ensures
        r == (target_keys(a@) == target_keys(b@)),
{
    if a.len() != b.len() {
        assert(target_keys(a@).len() != target_keys(b@).len());
        return false;
    }
    let mut i: usize = 0;
    while i < a.len()
        invariant
            0 <= i <= a.len(),
            a.len() == b.len(),
            forall|j: int| 0 <= j < i ==> a@[j].key@ == b@[j].key@,
        decreases a.len() - i,
    {
        if a[i].key != b[i].key {
            assert(target_keys(a@)[i as int] != target_keys(b@)[i as int]);
            return false;
        }
        i += 1;
    }
    assert(target_keys(a@) =~= target_keys(b@));
    true
}

/// A fetch the workers should run.
#[derive(Debug, PartialEq, Eq)]
pub struct AvatarRequest {
    pub generation: u64,
    pub target: AvatarTarget,
    pub refresh: bool,
}

impl Keyed for AvatarRequest {
    open spec fn tk(&self) -> Seq<char> {
        self.target.key@
    }

    fn target(&self) -> (t: &AvatarTarget) {
        &self.target
    }
}

/// What a worker reports for a request.
#[derive(Debug)]
pub enum AvatarOutcome {
    /// A picture found in the disk cache, shown until the refresh completes.
    Cached { generation: u64, target: AvatarTarget, picture_id: String },
    /// The current picture, fetched from the server.
    Available { generation: u64, target: AvatarTarget, picture_id: String },
    /// The target has no picture; not asked again this session.
    Unavailable { generation: u64, target: AvatarTarget },
    /// The fetch failed; retried after the cooldown.
    Failed { generation: u64, target: AvatarTarget },
}

pub open spec fn outcome_generation(o: AvatarOutcome) -> u64 {
    match o {
        AvatarOutcome::Cached { generation, .. } => generation,
        AvatarOutcome::Available { generation, .. } => generation,
        AvatarOutcome::Unavailable { generation, .. } => generation,
        AvatarOutcome::Failed { generation, .. } => generation,
    }
}

pub open spec fn outcome_key(o: AvatarOutcome) -> Seq<char> {
    match o {
        AvatarOutcome::Cached { target, .. } => target.key@,
        AvatarOutcome::Available { target, .. } => target.key@,
        AvatarOutcome::Unavailable { target, .. } => target.key@,
        AvatarOutcome::Failed { target, .. } => target.key@,
    }
}

impl AvatarOutcome {
    /// The window the result belongs to.
    pub fn generation(&self) -> (g: u64)
        ensures
            g == outcome_generation(*self),
    {
        match self {
            AvatarOutcome::Cached { generation, .. } => *generation,
            AvatarOutcome::Available { generation, .. } => *generation,
            AvatarOutcome::Unavailable { generation, .. } => *generation,
            AvatarOutcome::Failed { generation, .. } => *generation,
        }
    }

    /// The target the result is for.
    pub fn target(&self) -> (t: &AvatarTarget)
        ensures
            t.key@ == outcome_key(*self),
    {
        match self {
            AvatarOutcome::Cached { target, .. } => target,
            AvatarOutcome::Available { target, .. } => target,
            AvatarOutcome::Unavailable { target, .. } => target,
            AvatarOutcome::Failed { target, .. } => target,
        }
    }
}

/// What the caller does with its rendered pictures after a result.
#[derive(Debug, PartialEq, Eq)]
pub struct AvatarApplied {
    /// The result belongs to the current window and was applied.
    pub accepted: bool,
    /// Keep the rendered picture that came with the result.
    pub store_picture: bool,
    /// Drop the rendered picture of this target, evicted from memory.
    pub evicted: Option<AvatarTarget>,
    /// Drop the rendered picture of the result's target.
    pub dropped: bool,
}

/// The avatar scheduler's state.
pub struct ContactAvatars {
    /// The current window; results of older windows are stale.
    pub generation: u64,
    /// The targets of the current window, in priority order.
    pub requested: Vec<AvatarTarget>,
    /// Targets with a fetch under way.
    pub in_flight: Vec<AvatarTarget>,
    /// Targets without a picture, not asked again this session.
    pub unavailable: Vec<AvatarTarget>,
    /// Targets whose picture was checked against the server this session.
    pub refreshed: Vec<AvatarTarget>,
    /// The last failure of each target.
    pub failures: Vec<FailureEntry>,
    /// Pictures held in memory.
    pub pictures: Vec<CachedPicture>,
    /// Use order of the held pictures, least recently used first.
    pub order: Vec<AvatarTarget>,
}

impl ContactAvatars {
    /// The sets are sets, each held picture appears once in the use order,
    /// and at most `AVATAR_CACHE_CAPACITY` pictures are held.
    pub open spec fn wf(&self) -> bool {
        &&& unique(self.in_flight@)
        &&& unique(self.unavailable@)
        &&& unique(self.refreshed@)
        &&& unique(self.failures@)
        &&& unique(self.pictures@)
        &&& unique(self.order@)
        &&& forall|k: Seq<char>| holds_key(self.order@, k) == holds_key(self.pictures@, k)
        &&& self.pictures.len() <= AVATAR_CACHE_CAPACITY
    }

    /// The failure recorded for `k`, as (window, retry time).
    pub open spec fn failure_of(&self, k: Seq<char>) -> Option<(u64, u64)> {
        if holds_key(self.failures@, k) {
            let e = entry_for(self.failures@, k);
            Some((e.generation, e.retry_at))
        } else {
            None
        }
    }

    /// The picture id held for `k`.
    pub open spec fn picture_of(&self, k: Seq<char>) -> Seq<char> {
        entry_for(self.pictures@, k).picture_id@
    }

    /// Whether `k` should be fetched now: it is not both held and
    /// refreshed, not in flight, not unavailable, and may retry.
    pub open spec fn eligible(&self, k: Seq<char>, now: u64) -> bool {
        &&& (!holds_key(self.pictures@, k) || !holds_key(self.refreshed@, k))
        &&& !holds_key(self.in_flight@, k)
        &&& !holds_key(self.unavailable@, k)
        &&& retry_allowed(self.failure_of(k), self.generation, now)
    }

    /// A result applies when it belongs to the current window and its
    /// target is still requested.
    pub open spec fn current(&self, o: AvatarOutcome) -> bool {
        outcome_generation(o) == self.generation && holds_key(self.requested@, outcome_key(o))
    }

    /// An empty scheduler.
    pub fn new() -> (s: ContactAvatars)
        ensures
            s.wf(),
            s.generation == 0,
            s.requested.len() == 0,
            s.in_flight.len() == 0,
            s.unavailable.len() == 0,
            s.refreshed.len() == 0,
            s.failures.len() == 0,
            s.pictures.len() == 0,
            s.order.len() == 0,
    {
        ContactAvatars {
            generation: 0,
            requested: Vec::new(),
            in_flight: Vec::new(),
            unavailable: Vec::new(),
            refreshed: Vec::new(),
            failures: Vec::new(),
            pictures: Vec::new(),
            order: Vec::new(),
        }
    }

    fn failure(&self, t: &AvatarTarget) -> (r: Option<(u64, u64)>)
        requires
            self.wf(),
        ensures
            r == self.failure_of(t.key@),
    {
        match find(&self.failures, t) {
            Some(i) => {
                proof {
                    lemma_entry_for(self.failures@, i as int);
                }
                Some((self.failures[i].generation, self.failures[i].retry_at))
            },
            None => None,
        }
    }

    /// The requests come in window order: each from a position of the
    /// window, the positions increasing.
    pub open spec fn in_window_order(requested: Seq<AvatarTarget>, r: Seq<AvatarRequest>) -> bool {
        exists|src: Seq<int>| Self::window_positions(requested, r, src)
    }

    /// `src` gives, for each request, the window position it came from.
    pub open spec fn window_positions(requested: Seq<AvatarTarget>, r: Seq<AvatarRequest>, src: Seq<int>) -> bool {
        &&& src.len() == r.len()
        &&& forall|j: int| 0 <= j < r.len() ==> 0 <= #[trigger] src[j] < requested.len() && r[j].tk() == requested[src[j]].tk()
        &&& forall|a: int, b: int| 0 <= a < b < src.len() ==> src[a] < src[b]
    }

    /// Starts a fetch for every requested target that is eligible now, in
    /// window order, and marks each as in flight. A target is fetched at
    /// most once per call, and a target already in flight is not fetched
    /// again, so an unchanged window asks nothing twice.
    pub fn take_requests(&mut self, now: u64) -> (r: Vec<AvatarRequest>)
        requires
            old(self).wf(),
        ensures
            final(self).wf(),
            final(self).generation == old(self).generation,
            final(self).requested@ == old(self).requested@,
            final(self).unavailable@ == old(self).unavailable@,
            final(self).refreshed@ == old(self).refreshed@,
            final(self).failures@ == old(self).failures@,
            final(self).pictures@ == old(self).pictures@,
            final(self).order@ == old(self).order@,
            unique(r@),
            Self::in_window_order(old(self).requested@, r@),
            forall|i: int|
                0 <= i < r.len() ==> {
                    &&& (#[trigger] r@[i]).generation == old(self).generation
                    &&& r@[i].refresh
                    &&& holds_key(old(self).requested@, r@[i].tk())
                    &&& old(self).eligible(r@[i].tk(), now)
                },
            forall|i: int|
                0 <= i < old(self).requested.len() && old(self).eligible(
                    #[trigger] old(self).requested@[i].tk(),
                    now,
                ) ==> holds_key(r@, old(self).requested@[i].tk()),
            forall|k: Seq<char>|
                #[trigger] holds_key(final(self).in_flight@, k) == (holds_key(old(self).in_flight@, k) || holds_key(r@, k)),
            forall|i: int|
                0 <= i < final(self).requested.len() ==> !final(self).eligible(
                    #[trigger] final(self).requested@[i].tk(),
                    now,
                ),
    {
        let ghost old_self = *self;
        let mut requests: Vec<AvatarRequest> = Vec::new();
        let ghost mut src: Seq<int> = Seq::empty();
        let mut i: usize = 0;
        while i < self.requested.len()
            invariant
                self.wf(),
                Self::window_positions(old_self.requested@, requests@, src),
                forall|j: int| 0 <= j < src.len() ==> #[trigger] src[j] < i,
                0 <= i <= self.requested.len(),
                self.generation == old_self.generation,
                self.requested@ == old_self.requested@,
                self.unavailable@ == old_self.unavailable@,
                self.refreshed@ == old_self.refreshed@,
                self.failures@ == old_self.failures@,
                self.pictures@ == old_self.pictures@,
                self.order@ == old_self.order@,
                unique(requests@),
                forall|j: int|
                    0 <= j < requests.len() ==> {
                        &&& (#[trigger] requests@[j]).generation == old_self.generation
                        &&& requests@[j].refresh
                        &&& holds_key(old_self.requested@, requests@[j].tk())
                        &&& old_self.eligible(requests@[j].tk(), now)
                    },
                forall|j: int|
                    0 <= j < i && old_self.eligible(#[trigger] old_self.requested@[j].tk(), now)
                        ==> holds_key(requests@, old_self.requested@[j].tk()),
                forall|k: Seq<char>|
                    #[trigger] holds_key(self.in_flight@, k) == (holds_key(old_self.in_flight@, k) || holds_key(requests@, k)),
            decreases self.requested.len() - i,
        {
            let target = copy_target(&self.requested[i]);
            let ghost k = target.key@;
            assert(holds_key(self.in_flight@, k) == (holds_key(old_self.in_flight@, k) || holds_key(requests@, k)));
            let retryable = retry_eligible(self.failure(&target), self.generation, now);
            let held = contains_target(&self.pictures, &target);
            let refreshed = contains_target(&self.refreshed, &target);
            let in_flight = contains_target(&self.in_flight, &target);
            let unavailable = contains_target(&self.unavailable, &target);
            assert(holds_key(old_self.requested@, k)) by {
                assert(old_self.requested@[i as int].tk() == k);
            }
            assert(holds_key(self.in_flight@, k) == (holds_key(old_self.in_flight@, k) || holds_key(requests@, k)));
            assert(self.failure_of(k) == old_self.failure_of(k));
            if (!held || !refreshed) && !in_flight && !unavailable && retryable {
                assert(old_self.eligible(k, now));
                let ghost before_flight = self.in_flight@;
                let ghost before_requests = requests@;
                insert_target(&mut self.in_flight, &target);
                let request = AvatarRequest {
                    generation: self.generation,
                    target,
                    refresh: !held || !refreshed,
                };
                proof {
                    assert(!holds_key(requests@, request.tk()));
                    lemma_push_new(requests@, request);
                }
                requests.push(request);
                proof {
                    let old_src = src;
                    src = src.push(i as int);
                    assert forall|j: int| 0 <= j < requests@.len() implies 0 <= #[trigger] src[j] < old_self.requested@.len()
                        && requests@[j].tk() == old_self.requested@[src[j]].tk() by {
                        if j < old_src.len() {
                            assert(src[j] == old_src[j] && requests@[j] == before_requests[j]);
                        }
                    }
                    assert forall|a: int, b: int| 0 <= a < b < src.len() implies src[a] < src[b] by {
                        if b < old_src.len() {
                            assert(src[a] == old_src[a] && src[b] == old_src[b]);
                        } else {
                            assert(src[a] == old_src[a]);
                        }
                    }
                    assert forall|j: int| 0 <= j < src.len() implies #[trigger] src[j] < i + 1 by {
                        if j < old_src.len() {
                            assert(src[j] == old_src[j]);
                        }
                    }
                    assert forall|k2: Seq<char>|
                        holds_key(self.in_flight@, k2) == (holds_key(old_self.in_flight@, k2)
                            || holds_key(requests@, k2)) by {
                        if k2 != k {
                            assert(holds_key(self.in_flight@, k2) == holds_key(before_flight, k2));
                            assert(holds_key(requests@, k2) == holds_key(before_requests, k2));
                            assert(holds_key(before_flight, k2) == (holds_key(old_self.in_flight@, k2)
                                || holds_key(before_requests, k2)));
                        }
                    }
                    assert forall|j: int|
                        0 <= j < i + 1 && old_self.eligible(#[trigger] old_self.requested@[j].tk(), now)
                            implies holds_key(requests@, old_self.requested@[j].tk()) by {
                        let k2 = old_self.requested@[j].tk();
                        if k2 != k && j < i {
                            assert(holds_key(before_requests, k2));
                        }
                    }
                }
            } else {
                assert(old_self.eligible(k, now) ==> holds_key(requests@, k));
            }
            i += 1;
        }
        proof {
            assert(Self::window_positions(old_self.requested@, requests@, src));
            assert forall|j: int|
                0 <= j < self.requested.len() implies !self.eligible(
                #[trigger] self.requested@[j].tk(),
                now,
            ) by {
                let k = self.requested@[j].tk();
                assert(holds_key(self.in_flight@, k) == (holds_key(old_self.in_flight@, k)
                    || holds_key(requests@, k)));
                assert(self.failure_of(k) == old_self.failure_of(k));
                if old_self.eligible(k, now) {
                    assert(holds_key(requests@, k));
                }
            }
        }
        requests
    }

    /// Holds a picture for `t`, evicting the least recently used picture
    /// when the cache is full and `t` is new, and marks `t` most recently
    /// used. Returns the evicted target.
    pub fn insert_picture(&mut self, t: &AvatarTarget, picture_id: String) -> (evicted: Option<
        AvatarTarget,
    >)
        requires
            old(self).wf(),
        ensures
            final(self).wf(),
            final(self).generation == old(self).generation,
            final(self).requested@ == old(self).requested@,
            final(self).in_flight@ == old(self).in_flight@,
            final(self).unavailable@ == old(self).unavailable@,
            final(self).refreshed@ == old(self).refreshed@,
            final(self).failures@ == old(self).failures@,
            holds_key(final(self).pictures@, t.key@),
            final(self).picture_of(t.key@) == picture_id@,
            final(self).order@.last().tk() == t.key@,
            (holds_key(old(self).pictures@, t.key@) || old(self).pictures.len() < AVATAR_CACHE_CAPACITY)
                ==> evicted is None,
            !holds_key(old(self).pictures@, t.key@) && old(self).pictures.len()
                >= AVATAR_CACHE_CAPACITY ==> (evicted matches Some(e) && e.key@
                == old(self).order@[0].tk() && !holds_key(final(self).pictures@, e.key@)),
            forall|k: Seq<char>|
                k != t.key@ && !(evicted matches Some(e) && e.key@ == k) ==> holds_key(
                    final(self).pictures@,
                    k,
                ) == holds_key(old(self).pictures@, k) && (holds_key(old(self).pictures@, k)
                    ==> final(self).picture_of(k) == old(self).picture_of(k)),
    {
        let ghost old_self = *self;
        let held = contains_target(&self.pictures, t);
        let mut evicted: Option<AvatarTarget> = None;
        if !held && self.pictures.len() >= AVATAR_CACHE_CAPACITY {
            proof {
                let e = self.pictures@[0];
                assert(holds_key(self.pictures@, e.tk()));
                assert(holds_key(self.order@, e.tk()));
            }
            let oldest = self.order.remove(0);
            proof {
                lemma_remove_at(old_self.order@, 0);
                assert(holds_key(old_self.order@, oldest.tk())) by {
                    assert(old_self.order@[0].tk() == oldest.tk());
                }
            }
            remove_target(&mut self.pictures, &oldest);
            evicted = Some(oldest);
        }
        let ghost o1 = self.order@;
        let ghost p1 = self.pictures@;
        proof {
            assert forall|k: Seq<char>| holds_key(o1, k) == holds_key(p1, k) by {
                if evicted is Some {
                    if k != evicted->0.key@ {
                        assert(holds_key(o1, k) == holds_key(old_self.order@, k));
                        assert(holds_key(p1, k) == holds_key(old_self.pictures@, k));
                    }
                }
            }
        }
        remove_target(&mut self.order, t);
        remove_target(&mut self.pictures, t);
        let ghost o2 = self.order@;
        let ghost p2 = self.pictures@;
        proof {
            assert forall|k: Seq<char>| holds_key(o2, k) == holds_key(p2, k) by {
                if k != t.key@ {
                    assert(holds_key(o2, k) == holds_key(o1, k));
                    assert(holds_key(p2, k) == holds_key(p1, k));
                    assert(holds_key(o1, k) == holds_key(p1, k));
                }
            }
        }
        let entry = CachedPicture { target: copy_target(t), picture_id };
        proof {
            lemma_push_new(self.pictures@, entry);
        }
        self.pictures.push(entry);
        let c = copy_target(t);
        proof {
            lemma_push_new(self.order@, c);
        }
        self.order.push(c);
        proof {
            assert forall|k: Seq<char>| holds_key(self.order@, k) == holds_key(self.pictures@, k) by {
                if k != t.key@ {
                    assert(holds_key(self.order@, k) == holds_key(o2, k));
                    assert(holds_key(self.pictures@, k) == holds_key(p2, k));
                    assert(holds_key(o2, k) == holds_key(p2, k));
                }
            }
            assert(self.pictures.len() <= AVATAR_CACHE_CAPACITY);
        }
        evicted
    }

    /// Applies a worker result. A result of an older window, or for a
    /// target no longer requested, is ignored and changes nothing. A cached
    /// picture is held while its refresh continues; an available picture
    /// ends the fetch, replaces a held picture with another id and marks the
    /// target refreshed; an unavailable target ends the fetch, drops its
    /// picture and is not asked again; a failure ends the fetch and starts
    /// the retry cooldown.
    pub fn apply(&mut self, outcome: AvatarOutcome, now: u64) -> (r: AvatarApplied)
        requires
            old(self).wf(),
            now <= u64::MAX - RETRY_COOLDOWN_MS,
        ensures
            final(self).wf(),
            r.accepted == old(self).current(outcome),
            !r.accepted ==> *final(self) == *old(self) && !r.store_picture && r.evicted is None
                && !r.dropped,
            final(self).generation == old(self).generation,
            final(self).requested@ == old(self).requested@,
            r.accepted ==> match outcome {
                AvatarOutcome::Cached { target, picture_id, .. } => {
                    &&& r.store_picture && !r.dropped
                    &&& holds_key(final(self).pictures@, target.key@)
                    &&& final(self).picture_of(target.key@) == picture_id@
                    &&& final(self).in_flight@ == old(self).in_flight@
                    &&& final(self).refreshed@ == old(self).refreshed@
                },
                AvatarOutcome::Available { target, picture_id, .. } => {
                    let changed = !holds_key(old(self).pictures@, target.key@) || old(self).picture_of(
                        target.key@,
                    ) != picture_id@;
                    &&& r.store_picture == changed && !r.dropped
                    &&& holds_key(final(self).pictures@, target.key@)
                    &&& final(self).picture_of(target.key@) == picture_id@
                    &&& !holds_key(final(self).in_flight@, target.key@)
                    &&& holds_key(final(self).refreshed@, target.key@)
                    &&& !changed ==> final(self).pictures@ == old(self).pictures@ && r.evicted is None
                },
                AvatarOutcome::Unavailable { target, .. } => {
                    &&& !r.store_picture && r.dropped && r.evicted is None
                    &&& !holds_key(final(self).in_flight@, target.key@)
                    &&& !holds_key(final(self).pictures@, target.key@)
                    &&& holds_key(final(self).unavailable@, target.key@)
                    &&& holds_key(final(self).refreshed@, target.key@)
                },
                AvatarOutcome::Failed { generation, target } => {
                    &&& !r.store_picture && !r.dropped && r.evicted is None
                    &&& !holds_key(final(self).in_flight@, target.key@)
                    &&& final(self).failure_of(target.key@) == Some(
                        (generation, (now + RETRY_COOLDOWN_MS) as u64),
                    )
                    &&& final(self).pictures@ == old(self).pictures@
                },
            },
    {
        let current = outcome.generation() == self.generation && contains_target(
            &self.requested,
            outcome.target(),
        );
        if !current {
            return AvatarApplied { accepted: false, store_picture: false, evicted: None, dropped: false };
        }
        match outcome {
            AvatarOutcome::Cached { target, picture_id, .. } => {
                let evicted = self.insert_picture(&target, picture_id);
                AvatarApplied { accepted: true, store_picture: true, evicted, dropped: false }
            },
            AvatarOutcome::Available { target, picture_id, .. } => {
                remove_target(&mut self.in_flight, &target);
                let changed = match find(&self.pictures, &target) {
                    Some(i) => {
                        proof {
                            lemma_entry_for(self.pictures@, i as int);
                        }
                        self.pictures[i].picture_id != picture_id
                    },
                    None => true,
                };
                let mut evicted = None;
                if changed {
                    evicted = self.insert_picture(&target, picture_id);
                }
                insert_target(&mut self.refreshed, &target);
                AvatarApplied { accepted: true, store_picture: changed, evicted, dropped: false }
            },
            AvatarOutcome::Unavailable { target, .. } => {
                remove_target(&mut self.in_flight, &target);
                remove_target(&mut self.pictures, &target);
                remove_target(&mut self.order, &target);
                insert_target(&mut self.unavailable, &target);
                insert_target(&mut self.refreshed, &target);
                AvatarApplied { accepted: true, store_picture: false, evicted: None, dropped: true }
            },
            AvatarOutcome::Failed { generation, target } => {
                remove_target(&mut self.in_flight, &target);
                remove_target(&mut self.failures, &target);
                let entry = FailureEntry {
                    target,
                    generation,
                    retry_at: now + RETRY_COOLDOWN_MS,
                };
                proof {
                    lemma_push_new(self.failures@, entry);
                }
                self.failures.push(entry);
                AvatarApplied { accepted: true, store_picture: false, evicted: None, dropped: false }
            },
        }
    }

    /// Records that a refresh found the held picture unchanged. Ignored for
    /// an older window or a target no longer requested.
    pub fn mark_refreshed(&mut self, generation: u64, target: AvatarTarget) -> (r: bool)
        requires
            old(self).wf(),
        ensures
            final(self).wf(),
            r == (generation == old(self).generation && holds_key(old(self).requested@, target.key@)),
            !r ==> *final(self) == *old(self),
            r ==> !holds_key(final(self).in_flight@, target.key@) && holds_key(
                final(self).refreshed@,
                target.key@,
            ),
            final(self).pictures@ == old(self).pictures@,
            final(self).requested@ == old(self).requested@,
            final(self).generation == old(self).generation,
    {
        if generation != self.generation || !contains_target(&self.requested, &target) {
            return false;
        }
        remove_target(&mut self.in_flight, &target);
        insert_target(&mut self.refreshed, &target);
        true
    }

    /// Marks a held picture most recently used. Returns whether a picture is
    /// held for the target.
    pub fn touch(&mut self, target: &AvatarTarget) -> (held: bool)
        requires
            old(self).wf(),
        ensures
            final(self).wf(),
            held == holds_key(old(self).pictures@, target.key@),
            held ==> final(self).order@.last().tk() == target.key@,
            final(self).pictures@ == old(self).pictures@,
            final(self).requested@ == old(self).requested@,
            final(self).in_flight@ == old(self).in_flight@,
            final(self).generation == old(self).generation,
    {
        if !contains_target(&self.pictures, target) {
            return false;
        }
        remove_target(&mut self.order, target);
        let c = copy_target(target);
        proof {
            lemma_push_new(self.order@, c);
        }
        self.order.push(c);
        true
    }

    /// Schedules the fetches of a new window of targets. An empty window
    /// clears the current one. A window that differs from the current one
    /// starts a new generation, so results of the old window become stale,
    /// and forgets the fetches under way; an unchanged window keeps them.
    /// Then every eligible target is fetched.
    pub fn schedule_window(&mut self, requests: Vec<AvatarTarget>, now: u64) -> (r: Vec<
        AvatarRequest,
    >)
        requires
            old(self).wf(),
        ensures
            final(self).wf(),
            requests.len() == 0 ==> r.len() == 0 && final(self).requested.len() == 0,
            requests.len() > 0 ==> target_keys(final(self).requested@) == target_keys(requests@),
            requests.len() > 0 && target_keys(requests@) != target_keys(old(self).requested@)
                ==> final(self).generation == (if old(self).generation == u64::MAX {
                0
            } else {
                (old(self).generation + 1) as u64
            }),
            requests.len() > 0 && target_keys(requests@) == target_keys(old(self).requested@)
                ==> final(self).generation == old(self).generation,
            forall|i: int|
                0 <= i < r.len() ==> (#[trigger] r@[i]).generation == final(self).generation
                    && holds_key(final(self).requested@, r@[i].tk()),
            forall|i: int|
                0 <= i < final(self).requested.len() ==> !final(self).eligible(
                    #[trigger] final(self).requested@[i].tk(),
                    now,
                ),
            final(self).pictures@ == old(self).pictures@,
    {
        if requests.len() == 0 {
            self.clear_window();
            return Vec::new();
        }
        let same = same_targets(&requests, &self.requested);
        if !same {
            self.generation = self.generation.wrapping_add(1);
            self.requested = requests;
            self.in_flight.clear();
            assert(unique(self.in_flight@));
        }
        let r = self.take_requests(now);
        proof {
            assert forall|i: int| 0 <= i < r.len() implies holds_key(self.requested@, (#[trigger] r@[i]).tk()) by {
                assert(holds_key(self.requested@, r@[i].tk()));
            }
        }
        r
    }

    /// Forgets the window: every result still under way becomes stale.
    pub fn clear_window(&mut self)
        requires
            old(self).wf(),
        ensures
            final(self).wf(),
            final(self).requested.len() == 0,
            old(self).requested.len() == 0 ==> *final(self) == *old(self),
            old(self).requested.len() > 0 ==> final(self).generation == (if old(
                self,
            ).generation == u64::MAX {
                0
            } else {
                (old(self).generation + 1) as u64
            }) && final(self).in_flight.len() == 0,
            final(self).pictures@ == old(self).pictures@,
            final(self).failures@ == old(self).failures@,
    {
        if self.requested.len() == 0 {
            return;
        }
        self.generation = self.generation.wrapping_add(1);
        self.requested.clear();
        self.in_flight.clear();
    }
}

/// After the window is cleared, no result applies.
pub proof fn lemma_cleared_window_rejects_results(s: ContactAvatars, o: AvatarOutcome)
    requires
        s.requested.len() == 0,
    ensures
        !s.current(o),
{
}

/// A result from an older window never applies, whatever its target.
pub proof fn lemma_stale_generation_rejected(s: ContactAvatars, o: AvatarOutcome)
    requires
        outcome_generation(o) != s.generation,
    ensures
        !s.current(o),
{
}

} // verus!
