//! The per-repository control flow: the cache is probed, synchronised if
//! it is not ready and fetching is allowed, probed again, and then scanned.
//! The caller performs each step that `next_step` asks for and reports
//! what happened as the next event.

use crate::error::CompliantError;
use crate::layout::{CacheEntry, NotReady};
use vstd::prelude::*;
use vstd::string::*;

verus! {

/// Why processing of a repository stopped before its scan.
#[derive(Debug, Clone, Copy, PartialEq, Eq, Structural)]
pub enum StopReason {
    /// No reference or no snapshot, and none after a fetch.
    NotFound,
    /// The snapshot exists but has no build directory.
    BuildDirMissing,
    /// The fetch itself failed.
    FetchFailed,
}

/// Where processing of one repository stands.
#[derive(Debug, Clone, Copy, PartialEq, Eq, Structural)]
pub enum Phase {
    /// Nothing is known yet: the cache is being probed.
    Unresolved,
    /// The cache is being synchronised.
    Syncing,
    /// The cache is probed again after a successful synchronisation.
    Reprobing,
    /// The cache entry is ready: its build directory is scanned.
    Resolved,
    /// Processing stopped with a structured result.
    Stopped(StopReason),
}

/// What the caller observed.
#[derive(Debug, Clone, Copy, PartialEq, Eq, Structural)]
pub enum Event {
    /// The cache was probed; `missing` is why the entry did not resolve,
    /// or nothing when it did.
    Probed { missing: Option<NotReady> },
    /// A synchronisation ended; `ok` tells whether it succeeded.
    Synced { ok: bool },
}

/// What the caller is to do next.
#[derive(Debug, Clone, Copy, PartialEq, Eq, Structural)]
pub enum Step {
    /// Synchronise the cache from the remote hub.
    Fetch,
    /// Probe the cache again.
    Probe,
    /// Scan the resolved build directory.
    Scan,
    /// Report the structured result and go on with the next repository.
    Stop(StopReason),
}

/// The events that a phase waits for.
pub open spec fn expects(phase: Phase, event: Event) -> bool {
    match phase {
        Phase::Unresolved | Phase::Reprobing => event is Probed,
        Phase::Syncing => event is Synced,
        _ => false,
    }
}

/// How a probe that found the entry not ready ends the flow: a snapshot
/// without a build directory has its own reason.
pub open spec fn stop_for(missing: NotReady) -> StopReason {
    if missing == NotReady::BuildMissing {
        StopReason::BuildDirMissing
    } else {
        StopReason::NotFound
    }
}

/// Why a probe event found the entry not ready, if it is one and did.
pub open spec fn probe_missing(event: Event) -> Option<NotReady> {
    match event {
        Event::Probed { missing } => missing,
        _ => None,
    }
}

/// The event that a probe of the cache produced.
pub fn probe_event(entry: &Result<CacheEntry, NotReady>) -> (r: Event)
    ensures
        r is Probed,
        entry is Ok ==> probe_missing(r) is None,
        *entry matches Err(m) ==> probe_missing(r) == Some(m),
{
    match entry {
        Ok(_) => Event::Probed { missing: None },
        Err(m) => Event::Probed { missing: Some(*m) },
    }
}

/// The transition of the per-repository flow on one event: a ready cache is
/// scanned; a cache that is not ready is fetched when `auto_fetch` allows
/// it and otherwise stops; a failed fetch stops; after a successful fetch
/// the cache is probed once more, and if it is still not ready the flow
/// stops. A stop after a probe reports a missing build directory as such,
/// and a missing reference or snapshot as not found.
pub fn next_step(phase: Phase, auto_fetch: bool, event: Event) -> (r: (Phase, Step))
    requires
        expects(phase, event),
    ensures
        (phase == Phase::Unresolved || phase == Phase::Reprobing) && event == (Event::Probed {
            missing: None,
        }) ==> r == (Phase::Resolved, Step::Scan),
        phase == Phase::Unresolved && probe_missing(event) is Some && auto_fetch ==> r == (
        Phase::Syncing,
        Step::Fetch,
        ),
        ((phase == Phase::Unresolved && !auto_fetch) || phase == Phase::Reprobing)
            && probe_missing(event) is Some ==> r == (
        Phase::Stopped(stop_for(probe_missing(event)->Some_0)),
        Step::Stop(stop_for(probe_missing(event)->Some_0)),
        ),
        phase == Phase::Syncing && event == (Event::Synced { ok: true }) ==> r == (
        Phase::Reprobing,
        Step::Probe,
        ),
        phase == Phase::Syncing && event == (Event::Synced { ok: false }) ==> r == (
        Phase::Stopped(StopReason::FetchFailed),
        Step::Stop(StopReason::FetchFailed),
        ),
        !auto_fetch ==> r.1 != Step::Fetch,
        r.1 is Stop <==> r.0 is Stopped,
        r.1 == Step::Scan <==> r.0 == Phase::Resolved,
{
    match (phase, event) {
        (Phase::Syncing, Event::Synced { ok }) => {
            if ok {
                (Phase::Reprobing, Step::Probe)
            } else {
                (Phase::Stopped(StopReason::FetchFailed), Step::Stop(StopReason::FetchFailed))
            }
        },
        (_, Event::Probed { missing }) => match missing {
            None => (Phase::Resolved, Step::Scan),
            Some(m) => {
                if phase == Phase::Unresolved && auto_fetch {
                    (Phase::Syncing, Step::Fetch)
                } else {
                    let reason = if m == NotReady::BuildMissing {
                        StopReason::BuildDirMissing
                    } else {
                        StopReason::NotFound
                    };
                    (Phase::Stopped(reason), Step::Stop(reason))
                }
            },
        },
        _ => (Phase::Stopped(StopReason::NotFound), Step::Stop(StopReason::NotFound)),
    }
}

/// The error that a stop of the flow amounts to for the batch: not found,
/// a missing build directory, or the fetch failure's text.
pub fn stop_error(repo_id: &str, reason: StopReason, fetch_error: &str) -> (r: CompliantError)
    ensures
        reason == StopReason::NotFound ==> (r matches CompliantError::RepositoryNotFound(m)
            && m@ == repo_id@),
        reason == StopReason::BuildDirMissing ==> (r matches CompliantError::BuildDirNotFound(m)
            && m@ == repo_id@),
        reason == StopReason::FetchFailed ==> (r matches CompliantError::FetchError(m) && m@
            == fetch_error@),
{
    match reason {
        StopReason::NotFound => CompliantError::RepositoryNotFound(String::from_str(repo_id)),
        StopReason::BuildDirMissing => CompliantError::BuildDirNotFound(String::from_str(repo_id)),
        StopReason::FetchFailed => CompliantError::FetchError(String::from_str(fetch_error)),
    }
}

/// A structured error result for one repository, in the shape of a
/// successful one: the repository, a status word and a message.
#[derive(Debug, Clone)]
pub struct RepoErrorResponse {
    pub repository: String,
    pub status: String,
    pub error: String,
}

impl RepoErrorResponse {
    /// The response that a stop of the flow is reported with.
    pub fn for_stop(repo_id: &str, reason: StopReason, fetch_error: &str) -> (r: RepoErrorResponse)
        ensures
            r.repository@ == repo_id@,
            reason == StopReason::NotFound ==> r.status@ == "not_found"@ && r.error@
                == "repository not found locally"@,
            reason == StopReason::BuildDirMissing ==> r.status@ == "missing_build_dir"@
                && r.error@ == "build directory not found"@,
            reason == StopReason::FetchFailed ==> r.status@ == "fetch_failed"@ && r.error@
                == fetch_error@,
    {
        match reason {
            StopReason::NotFound => Self::not_found(repo_id),
            StopReason::BuildDirMissing => Self::missing_build_dir(repo_id),
            StopReason::FetchFailed => Self::fetch_failed(repo_id, fetch_error),
        }
    }

    /// The response of a repository whose cache entry could not be found.
    pub fn not_found(repo_id: &str) -> (r: RepoErrorResponse)
        ensures
            r.repository@ == repo_id@,
            r.status@ == "not_found"@,
            r.error@ == "repository not found locally"@,
    {
        RepoErrorResponse {
            repository: String::from_str(repo_id),
            status: String::from_str("not_found"),
            error: String::from_str("repository not found locally"),
        }
    }

    /// The response of a repository whose fetch failed, with the failure's
    /// text.
    pub fn fetch_failed(repo_id: &str, error: &str) -> (r: RepoErrorResponse)
        ensures
            r.repository@ == repo_id@,
            r.status@ == "fetch_failed"@,
            r.error@ == error@,
    {
        RepoErrorResponse {
            repository: String::from_str(repo_id),
            status: String::from_str("fetch_failed"),
            error: String::from_str(error),
        }
    }

    /// The response of a repository whose snapshot has no build directory.
    pub fn missing_build_dir(repo_id: &str) -> (r: RepoErrorResponse)
        ensures
            r.repository@ == repo_id@,
            r.status@ == "missing_build_dir"@,
            r.error@ == "build directory not found"@,
    {
        RepoErrorResponse {
            repository: String::from_str(repo_id),
            status: String::from_str("missing_build_dir"),
            error: String::from_str("build directory not found"),
        }
    }
}

} // verus!
