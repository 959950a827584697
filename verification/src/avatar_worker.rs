//! The decisions of an avatar fetch worker: whether a request still
//! matters, what a disk cache hit settles, and what a server answer is
//! reported as.
use vstd::prelude::*;

use crate::avatars::{holds_key, AvatarRequest, AvatarTarget, Keyed};

verus! {

/// A request still matters when it belongs to the window the scheduler
/// wants now and its target is in that window.
pub fn request_is_current(desired_generation: u64, desired: &Vec<AvatarTarget>, request: &AvatarRequest) -> (b: bool)
    ensures
        b == (request.generation == desired_generation && holds_key(desired@, request.target.key@)),
{
    if request.generation != desired_generation {
        return false;
    }
    let mut i: usize = 0;
    while i < desired.len()
        invariant
            0 <= i <= desired.len(),
            request.generation == desired_generation,
            forall|j: int| 0 <= j < i ==> (#[trigger] desired@[j]).tk() != request.target.key@,
        decreases desired.len() - i,
    {
        if desired[i].key == request.target.key {
            assert(desired@[i as int].tk() == request.target.key@);
            return true;
        }
        i += 1;
    }
    false
}

/// What the worker does after looking in the disk cache.
#[derive(Clone, Copy, Debug, PartialEq, Eq)]
pub enum CacheStep {
    /// The cached picture is enough: nothing more to do.
    Done,
    /// No cached picture and no refresh asked: report a failure.
    ReportFailure,
    /// Ask the server for the current picture.
    Fetch,
}

/// A request that does not ask for a refresh is settled by a cached
/// picture, and fails without one; a refresh always asks the server.
pub fn after_cache_lookup(refresh: bool, has_cached: bool) -> (s: CacheStep)
    ensures
        s == (if refresh {
            CacheStep::Fetch
        } else if has_cached {
            CacheStep::Done
        } else {
            CacheStep::ReportFailure
        }),
{
    if refresh {
        CacheStep::Fetch
    } else if has_cached {
        CacheStep::Done
    } else {
        CacheStep::ReportFailure
    }
}

/// What the server answered for a picture.
#[derive(Debug)]
pub enum FetchAnswer {
    Available { picture_id: String },
    Unavailable,
    Error,
}

/// What the worker reports after asking the server.
#[derive(Clone, Copy, Debug, PartialEq, Eq)]
pub enum FetchReport {
    /// The cached picture is still current: the target is refreshed.
    Refreshed,
    /// A new picture: store it, and report it available if it decodes.
    NewPicture,
    Unavailable,
    Failed,
}

/// The report for a server answer: an available picture with the cached
/// id is unchanged; another picture is new; no picture is unavailable; an
/// error is a failure.
pub open spec fn fetch_report_spec(answer: FetchAnswer, cached_id: Option<Seq<char>>) -> FetchReport {
    match answer {
        FetchAnswer::Available { picture_id } => if cached_id == Some(picture_id@) {
            FetchReport::Refreshed
        } else {
            FetchReport::NewPicture
        },
        FetchAnswer::Unavailable => FetchReport::Unavailable,
        FetchAnswer::Error => FetchReport::Failed,
    }
}

/// A server answer is reported as refreshed exactly when it names the
/// cached picture, as a new picture exactly when it names another one, as
/// unavailable when there is no picture, and as failed on an error.
pub proof fn lemma_fetch_report(answer: FetchAnswer, cached_id: Option<Seq<char>>)
    ensures
        ({
            let r = fetch_report_spec(answer, cached_id);
            &&& (r == FetchReport::Refreshed) == (answer matches FetchAnswer::Available { picture_id }
                && cached_id == Some(picture_id@))
            &&& (r == FetchReport::NewPicture) == (answer matches FetchAnswer::Available { picture_id }
                && cached_id != Some(picture_id@))
            &&& (r == FetchReport::Unavailable) == (answer is Unavailable)
            &&& (r == FetchReport::Failed) == (answer is Error)
        }),
{
}

/// Decides what a server answer is reported as.
pub fn fetch_report(answer: &FetchAnswer, cached_id: Option<&str>) -> (r: FetchReport)
    ensures
        r == fetch_report_spec(
            *answer,
            match cached_id {
                Some(c) => Some(c@),
                None => None,
            },
        ),
{
    match answer {
        FetchAnswer::Available { picture_id } => match cached_id {
            Some(c) => {
                if crate::text_order::compare_text(c, picture_id.as_str()) == crate::text_order::Comparison::Equal {
                    FetchReport::Refreshed
                } else {
                    FetchReport::NewPicture
                }
            },
            None => FetchReport::NewPicture,
        },
        FetchAnswer::Unavailable => FetchReport::Unavailable,
        FetchAnswer::Error => FetchReport::Failed,
    }
}

/// One thing a worker does for a request, in order.
#[derive(Clone, Copy, Debug, PartialEq, Eq)]
pub enum WorkerStep {
    /// Report the picture found in the disk cache.
    ReportCached,
    /// Report that no picture could be had.
    ReportFailure,
    /// Ask the server for the current picture.
    Fetch,
}

/// What a worker does for a request, in order: nothing for a request that
/// no longer matters; otherwise a cached picture is reported first, then
/// the server is asked only when a refresh is due, and a request without a
/// refresh or a cached picture reports a failure.
pub open spec fn worker_plan_spec(current: bool, refresh: bool, has_cached: bool) -> Seq<WorkerStep> {
    if !current {
        Seq::empty()
    } else {
        let first = if has_cached {
            seq![WorkerStep::ReportCached]
        } else {
            Seq::empty()
        };
        if refresh {
            first.push(WorkerStep::Fetch)
        } else if has_cached {
            first
        } else {
            first.push(WorkerStep::ReportFailure)
        }
    }
}

/// A worker does nothing for a request that no longer matters; otherwise
/// it reports a cached picture first when there is one, asks the server
/// (as its last step) exactly when a refresh is due, and reports a failure
/// exactly when there is neither a refresh nor a cached picture; it does
/// at most two things.
pub proof fn lemma_worker_plan(current: bool, refresh: bool, has_cached: bool)
    ensures
        ({
            let p = worker_plan_spec(current, refresh, has_cached);
            &&& (p.len() == 0) == !current
            &&& p.len() <= 2
            &&& (current && has_cached) ==> p[0] == WorkerStep::ReportCached
            &&& p.contains(WorkerStep::ReportCached) == (current && has_cached)
            &&& p.contains(WorkerStep::Fetch) == (current && refresh)
            &&& (current && refresh) ==> p.last() == WorkerStep::Fetch
            &&& p.contains(WorkerStep::ReportFailure) == (current && !refresh && !has_cached)
        }),
{
    let p = worker_plan_spec(current, refresh, has_cached);
    if current {
        if has_cached {
            assert(p[0] == WorkerStep::ReportCached);
        }
        if refresh {
            assert(p[p.len() - 1] == WorkerStep::Fetch);
        }
        if !refresh && !has_cached {
            assert(p[0] == WorkerStep::ReportFailure);
        }
    }
}

/// Plans what a worker does for a request after looking in the disk
/// cache.
pub fn worker_plan(current: bool, refresh: bool, has_cached: bool) -> (plan: Vec<WorkerStep>)
    ensures
        plan@ == worker_plan_spec(current, refresh, has_cached),
        has_cached && current ==> plan@[0] == WorkerStep::ReportCached,
        plan@.contains(WorkerStep::Fetch) ==> current && refresh,
{
    let mut plan: Vec<WorkerStep> = Vec::new();
    if !current {
        proof {
            assert(plan@ =~= worker_plan_spec(current, refresh, has_cached));
        }
        return plan;
    }
    if has_cached {
        plan.push(WorkerStep::ReportCached);
    }
    match after_cache_lookup(refresh, has_cached) {
        CacheStep::Fetch => plan.push(WorkerStep::Fetch),
        CacheStep::ReportFailure => plan.push(WorkerStep::ReportFailure),
        CacheStep::Done => {},
    }
    proof {
        assert(plan@ =~= worker_plan_spec(current, refresh, has_cached));
        if plan@.contains(WorkerStep::Fetch) {
            let k = choose|k: int| 0 <= k < plan@.len() && plan@[k] == WorkerStep::Fetch;
        }
    }
    plan
}

} // verus!
