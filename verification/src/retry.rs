//! The retry policy: exponential capped backoff and per-stage attempt caps.

use vstd::prelude::*;

use crate::events::{RetryReason, RetryRequest, RetryTarget, SearchRequest};

verus! {

/// The numeric knobs of the pipeline: the base and the cap of the search
/// timeout, the per-stage retry caps, the backoff schedule, and the
/// per-stage concurrency limits.
#[derive(Debug, Clone, Copy)]
pub struct PipelineSettings {
    pub search_timeout_secs: u64,
    pub max_search_timeout_secs: u64,
    pub max_search_retries: u8,
    pub max_judge_retries: u8,
    pub max_download_retries: u8,
    pub base_backoff_secs: u64,
    pub max_backoff_secs: u64,
    pub max_concurrent_searches: usize,
    pub max_concurrent_judges: usize,
    pub max_concurrent_downloads: usize,
}

/// 2^e as a mathematical natural.
pub open spec fn pow2(e: nat) -> nat
    decreases e,
{
    if e == 0 {
        1
    } else {
        2 * pow2((e - 1) as nat)
    }
}

/// Saturate a natural at `u64::MAX`.
pub open spec fn sat64(n: nat) -> nat {
    if n > u64::MAX as nat {
        u64::MAX as nat
    } else {
        n
    }
}

/// `min(base * 2^attempt, max)`, with the multiplication saturating at `u64::MAX`.
pub open spec fn spec_capped_backoff(base: u64, attempt: u8, max: u64) -> u64 {
    let sat = sat64((base as nat) * pow2(attempt as nat));
    if sat > max as nat {
        max
    } else {
        sat as u64
    }
}

proof fn lemma_pow2_step(e: nat)
    ensures
        pow2(e + 1) == 2 * pow2(e),
{
}

/// The backoff schedule: doubling `attempt` times from `base`, saturating,
/// then capped at `max`.
pub fn capped_backoff(base: u64, attempt: u8, max: u64) -> (r: u64)
    ensures
        r == spec_capped_backoff(base, attempt, max),
{
    let mut value: u64 = base;
    let mut i: u8 = 0;
    proof {
        assert(pow2(0) == 1);
        assert((base as nat) * pow2(0) == base as nat) by (nonlinear_arith)
            requires
                pow2(0) == 1,
        ;
    }
    while i < attempt
        invariant
            i <= attempt,
            value as nat == sat64((base as nat) * pow2(i as nat)),
        decreases attempt - i,
    {
        proof {
            lemma_pow2_step(i as nat);
            let x = (base as nat) * pow2(i as nat);
            assert((base as nat) * pow2((i + 1) as nat) == 2 * x) by (nonlinear_arith)
                requires
                    pow2((i + 1) as nat) == 2 * pow2(i as nat),
                    x == (base as nat) * pow2(i as nat),
            ;
        }
        value = if value > u64::MAX - value {
            u64::MAX
        } else {
            value + value
        };
        i = i + 1;
    }
    if value > max {
        max
    } else {
        value
    }
}

/// Whether the policy grants one more attempt for this reason: the
/// counter the reason charges must still be under its cap.
pub open spec fn retry_allowed(s: PipelineSettings, req: SearchRequest, reason: RetryReason) -> bool {
    match reason {
        RetryReason::SearchNoResults => req.search_attempts < s.max_search_retries,
        RetryReason::JudgeNoMatch => req.judge_attempts < s.max_judge_retries,
        RetryReason::DownloadFailed(_) => req.download_attempts < s.max_download_retries,
    }
}

/// The request a granted retry re-enters search with: the charged counter
/// incremented, the others kept, and the timeout grown exponentially for
/// a search retry and reset to the base otherwise.
pub open spec fn spec_retry_next(s: PipelineSettings, req: SearchRequest, reason: RetryReason) -> SearchRequest {
    match reason {
        RetryReason::SearchNoResults => SearchRequest {
            search_attempts: (req.search_attempts + 1) as u8,
            timeout_secs: spec_capped_backoff(
                s.search_timeout_secs,
                (req.search_attempts + 1) as u8,
                s.max_search_timeout_secs,
            ),
            ..req
        },
        RetryReason::JudgeNoMatch => SearchRequest {
            judge_attempts: (req.judge_attempts + 1) as u8,
            timeout_secs: s.search_timeout_secs,
            ..req
        },
        RetryReason::DownloadFailed(_) => SearchRequest {
            download_attempts: (req.download_attempts + 1) as u8,
            timeout_secs: s.search_timeout_secs,
            ..req
        },
    }
}

/// The backoff a granted retry sleeps for.
pub open spec fn spec_retry_backoff(s: PipelineSettings, req: SearchRequest, reason: RetryReason) -> u64 {
    match reason {
        RetryReason::SearchNoResults => spec_capped_backoff(
            s.base_backoff_secs,
            (req.search_attempts + 1) as u8,
            s.max_backoff_secs,
        ),
        RetryReason::JudgeNoMatch => spec_capped_backoff(
            s.base_backoff_secs,
            (req.judge_attempts + 1) as u8,
            s.max_backoff_secs,
        ),
        RetryReason::DownloadFailed(_) => spec_capped_backoff(
            s.base_backoff_secs,
            (req.download_attempts + 1) as u8,
            s.max_backoff_secs,
        ),
    }
}

/// The retry policy. Grants a retry exactly when the charged counter is
/// under its cap; the returned request carries the incremented counter,
/// the reason is kept unchanged, and the backoff follows the capped
/// exponential schedule. Counters never decrease.
pub fn build_retry(settings: &PipelineSettings, request: SearchRequest, reason: RetryReason) -> (r:
    Option<RetryRequest>)
    ensures
        r is Some <==> retry_allowed(*settings, request, reason),
        r matches Some(rr) ==> {
            &&& rr.reason == reason
            &&& rr.target == RetryTarget::Search(spec_retry_next(*settings, request, reason))
            &&& rr.backoff_secs == spec_retry_backoff(*settings, request, reason)
        },
{
    match reason {
        RetryReason::SearchNoResults => {
            if request.search_attempts >= settings.max_search_retries {
                return None;
            }
            let attempts = request.search_attempts + 1;
            let timeout_secs = capped_backoff(
                settings.search_timeout_secs,
                attempts,
                settings.max_search_timeout_secs,
            );
            let backoff_secs = capped_backoff(
                settings.base_backoff_secs,
                attempts,
                settings.max_backoff_secs,
            );
            let next = SearchRequest {
                item: request.item,
                search_attempts: attempts,
                judge_attempts: request.judge_attempts,
                download_attempts: request.download_attempts,
                timeout_secs,
            };
            Some(RetryRequest { target: RetryTarget::Search(next), reason: RetryReason::SearchNoResults, backoff_secs })
        },
        RetryReason::JudgeNoMatch => {
            if request.judge_attempts >= settings.max_judge_retries {
                return None;
            }
            let attempts = request.judge_attempts + 1;
            let backoff_secs = capped_backoff(
                settings.base_backoff_secs,
                attempts,
                settings.max_backoff_secs,
            );
            let next = SearchRequest {
                item: request.item,
                search_attempts: request.search_attempts,
                judge_attempts: attempts,
                download_attempts: request.download_attempts,
                timeout_secs: settings.search_timeout_secs,
            };
            Some(RetryRequest { target: RetryTarget::Search(next), reason: RetryReason::JudgeNoMatch, backoff_secs })
        },
        RetryReason::DownloadFailed(failure) => {
            if request.download_attempts >= settings.max_download_retries {
                return None;
            }
            let attempts = request.download_attempts + 1;
            let backoff_secs = capped_backoff(
                settings.base_backoff_secs,
                attempts,
                settings.max_backoff_secs,
            );
            let next = SearchRequest {
                item: request.item,
                search_attempts: request.search_attempts,
                judge_attempts: request.judge_attempts,
                download_attempts: attempts,
                timeout_secs: settings.search_timeout_secs,
            };
            Some(RetryRequest { target: RetryTarget::Search(next), reason: RetryReason::DownloadFailed(failure), backoff_secs })
        },
    }
}

/// The attempt counter the reason charges.
pub open spec fn charged_attempts(req: SearchRequest, reason: RetryReason) -> int {
    match reason {
        RetryReason::SearchNoResults => req.search_attempts as int,
        RetryReason::JudgeNoMatch => req.judge_attempts as int,
        RetryReason::DownloadFailed(_) => req.download_attempts as int,
    }
}

/// Attempt counters never decrease across a granted retry, and the
/// charged one grows by exactly one: every counter stays within its cap.
pub proof fn lemma_retry_monotone(s: PipelineSettings, req: SearchRequest, reason: RetryReason)
    requires
        retry_allowed(s, req, reason),
    ensures
        spec_retry_next(s, req, reason).search_attempts >= req.search_attempts,
        spec_retry_next(s, req, reason).judge_attempts >= req.judge_attempts,
        spec_retry_next(s, req, reason).download_attempts >= req.download_attempts,
        spec_retry_next(s, req, reason).total_attempts() == req.total_attempts() + 1,
        spec_retry_next(s, req, reason).item == req.item,
{
}

/// The request left after a whole sequence of granted retries, or none
/// as soon as one of them is refused.
pub open spec fn apply_retries(s: PipelineSettings, req: SearchRequest, reasons: Seq<RetryReason>) -> Option<SearchRequest>
    decreases reasons.len(),
{
    if reasons.len() == 0 {
        Some(req)
    } else if retry_allowed(s, req, reasons.first()) {
        apply_retries(s, spec_retry_next(s, req, reasons.first()), reasons.drop_first())
    } else {
        None
    }
}

/// The retry cap: however the reasons interleave, a request that starts
/// within its caps is granted at most
/// `max_search_retries + max_judge_retries + max_download_retries`
/// retries beyond its starting attempt total.
pub proof fn lemma_retry_chain_capped(s: PipelineSettings, req: SearchRequest, reasons: Seq<RetryReason>)
    requires
        apply_retries(s, req, reasons) is Some,
        req.search_attempts <= s.max_search_retries,
        req.judge_attempts <= s.max_judge_retries,
        req.download_attempts <= s.max_download_retries,
    ensures
        reasons.len() + req.total_attempts() <= s.max_search_retries + s.max_judge_retries
            + s.max_download_retries,
    decreases reasons.len(),
{
    if reasons.len() > 0 {
        let next = spec_retry_next(s, req, reasons.first());
        lemma_retry_monotone(s, req, reasons.first());
        lemma_retry_chain_capped(s, next, reasons.drop_first());
    }
}

} // verus!
