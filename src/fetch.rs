//! Decisions of the retrying fetcher: serve from the cache, issue an
//! attempt, wait and retry, or give up. The caller performs each action and
//! reports each attempt's outcome back.

use vstd::prelude::*;
use crate::cache::ResponseCache;

verus! {

/// Attempts allowed for one URL before its fetch fails.
pub const MAX_ATTEMPTS: u32 = 3;

/// Pause between two attempts, in milliseconds.
pub const RETRY_DELAY_MS: u64 = 2000;

/// Limit on one attempt, in milliseconds.
pub const ATTEMPT_TIMEOUT_MS: u64 = 20000;

/// What the caller does next for one URL.
#[derive(Debug, Clone, PartialEq, Eq)]
pub enum FetchStep {
    /// The body is known: hand it to the extractor; no request is made.
    Ready(String),
    /// Issue one request now.
    Request,
    /// Sleep this many milliseconds, then issue one request.
    Wait(u64),
    /// Attempts are exhausted: the fetch fails with the last error seen.
    GiveUp,
}

/// The body that a fetch of `url` can be served without a request.
pub open spec fn served_from_cache(m: Map<Seq<char>, Option<Seq<char>>>, url: Seq<char>) -> Option<Seq<char>> {
    if m.contains_key(url) { m[url] } else { None }
}

/// The cache after an attempt on `url` ended with `outcome`: a body
/// replaces the entry; a failure is marked only where no body is kept.
pub open spec fn after_attempt(
    m: Map<Seq<char>, Option<Seq<char>>>,
    url: Seq<char>,
    outcome: Option<Seq<char>>,
) -> Map<Seq<char>, Option<Seq<char>>> {
    match outcome {
        Some(b) => m.insert(url, Some(b)),
        None => if served_from_cache(m, url).is_some() { m } else { m.insert(url, None) },
    }
}

/// The fetch of one URL in progress.
pub struct FetchSession {
    pub url: String,
    pub attempts: u32,
}

impl FetchSession {
    /// Begins a fetch of `url`: served at once where the cache holds its
    /// body, else one request.
    pub fn start(url: String, cache: &ResponseCache) -> (r: (FetchSession, FetchStep))
        requires
            cache.wf(),
        ensures
            r.0.url@ == url@,
            r.0.attempts == 0,
            match served_from_cache(cache@, url@) {
                Some(b) => r.1 matches FetchStep::Ready(body) && body@ == b,
                None => r.1 == FetchStep::Request,
            },
    {
        let step = match cache.get(url.as_str()) {
            Some(Some(body)) => FetchStep::Ready(body),
            _ => FetchStep::Request,
        };
        (FetchSession { url, attempts: 0 }, step)
    }

    /// Takes the outcome of one attempt (`Some(body)` or `None` for a failure),
    /// records it in the cache, and says what to do next. A failure where
    /// another fetch of the same URL has meanwhile stored a body is served
    /// that body.
    pub fn on_attempt(&mut self, cache: &mut ResponseCache, outcome: Option<String>) -> (r: FetchStep)
        requires
            old(cache).wf(),
            old(self).attempts < MAX_ATTEMPTS,
        ensures
            final(cache).wf(),
            final(self).url == old(self).url,
            final(self).attempts == old(self).attempts + 1,
            final(cache)@ == after_attempt(old(cache)@, old(self).url@, crate::text::opt_view(outcome)),
            match outcome {
                Some(b) => r matches FetchStep::Ready(body) && body@ == b@,
                None => match served_from_cache(old(cache)@, old(self).url@) {
                    Some(b) => r matches FetchStep::Ready(body) && body@ == b,
                    None => if final(self).attempts < MAX_ATTEMPTS {
                        r == FetchStep::Wait(RETRY_DELAY_MS)
                    } else {
                        r == FetchStep::GiveUp
                    },
                },
            },
    {
        self.attempts = self.attempts + 1;
        match outcome {
            Some(body) => {
                let kept = body.clone();
                cache.put(self.url.clone(), Some(body));
                FetchStep::Ready(kept)
            },
            None => {
                match cache.get(self.url.as_str()) {
                    Some(Some(body)) => {
                        return FetchStep::Ready(body);
                    },
                    _ => cache.put(self.url.clone(), None),
                }
                if self.attempts < MAX_ATTEMPTS {
                    FetchStep::Wait(RETRY_DELAY_MS)
                } else {
                    FetchStep::GiveUp
                }
            },
        }
    }
}

/// Once a fetch of `url` has succeeded, a later fetch of it in the same run
/// is served from the cache with the same body, whatever other attempts
/// (on any URL, failed ones on `url` included) happened in between.
pub proof fn lemma_refetch_served_from_cache(
    m: Map<Seq<char>, Option<Seq<char>>>,
    url: Seq<char>,
    body: Seq<char>,
    later: Seq<(Seq<char>, Option<Seq<char>>)>,
)
    requires
        forall|i: int| 0 <= i < later.len() ==> (#[trigger] later[i]).0 != url || later[i].1.is_none(),
    ensures
        served_from_cache(replay(after_attempt(m, url, Some(body)), later), url) == Some(body),
    decreases later.len(),
{
    if later.len() > 0 {
        let prefix = later.drop_last();
        assert forall|i: int| 0 <= i < prefix.len() implies (#[trigger] prefix[i]).0 != url || prefix[i].1.is_none() by {
            assert(prefix[i] == later[i]);
        }
        lemma_refetch_served_from_cache(m, url, body, prefix);
        assert(later[later.len() - 1] == later.last());
    }
}

/// The cache after a series of attempts, each a URL and its outcome.
pub open spec fn replay(
    m: Map<Seq<char>, Option<Seq<char>>>,
    attempts: Seq<(Seq<char>, Option<Seq<char>>)>,
) -> Map<Seq<char>, Option<Seq<char>>>
    decreases attempts.len(),
{
    if attempts.len() == 0 {
        m
    } else {
        after_attempt(replay(m, attempts.drop_last()), attempts.last().0, attempts.last().1)
    }
}

} // verus!
