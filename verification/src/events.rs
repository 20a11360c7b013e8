//! The typed events that carry a track through the pipeline, and the
//! records they reference.

use vstd::prelude::*;

use crate::items::{JudgeSubmission, SearchItem};

verus! {

/// A track enriched with per-stage attempt counters and the dynamic
/// search timeout. Never mutated in place: retries produce a new value
/// with one counter incremented.
#[derive(Debug)]
pub struct SearchRequest {
    pub item: SearchItem,
    pub search_attempts: u8,
    pub judge_attempts: u8,
    pub download_attempts: u8,
    pub timeout_secs: u64,
}

impl Clone for SearchRequest {
    fn clone(&self) -> (r: Self)
        ensures
            r == *self,
    {
        SearchRequest {
            item: self.item.clone(),
            search_attempts: self.search_attempts,
            judge_attempts: self.judge_attempts,
            download_attempts: self.download_attempts,
            timeout_secs: self.timeout_secs,
        }
    }
}

impl SearchRequest {
    /// The sum of the three per-stage attempt counters.
    pub open spec fn total_attempts(self) -> int {
        self.search_attempts + self.judge_attempts + self.download_attempts
    }
}

/// What one search session produced for a request.
#[derive(Debug, Clone)]
pub struct SearchResults {
    pub request: SearchRequest,
    pub submissions: Vec<JudgeSubmission>,
}

/// One accepted candidate, carrying its originating request.
#[derive(Debug)]
pub struct DownloadRequest {
    pub request: SearchRequest,
    pub submission: JudgeSubmission,
}

impl Clone for DownloadRequest {
    fn clone(&self) -> (r: Self)
        ensures
            r == *self,
    {
        DownloadRequest { request: self.request.clone(), submission: self.submission.clone() }
    }
}

/// What the judge accepted out of one result set.
#[derive(Debug, Clone)]
pub struct JudgeResults {
    pub request: SearchRequest,
    pub accepted: Vec<DownloadRequest>,
    pub total: usize,
}

/// A completed download: the submission and where its file landed.
#[derive(Debug, Clone)]
pub struct DownloadedFile {
    pub submission: JudgeSubmission,
    pub path: String,
}

/// How a download ended short of completion.
#[derive(Debug, Clone, Copy, PartialEq, Eq, Structural)]
pub enum DownloadFailure {
    Failed,
    TimedOut,
    Unknown,
}

/// A failed download, carrying its provenance.
#[derive(Debug, Clone)]
pub struct DownloadFailureInfo {
    pub request: SearchRequest,
    pub submission: JudgeSubmission,
    pub failure: DownloadFailure,
}

/// What a retry re-enters. Every retry re-enters the search stage.
#[derive(Debug, Clone)]
pub enum RetryTarget {
    Search(SearchRequest),
}

/// Why a retry was scheduled.
#[derive(Debug, Clone, Copy, PartialEq, Eq, Structural)]
pub enum RetryReason {
    SearchNoResults,
    JudgeNoMatch,
    DownloadFailed(DownloadFailure),
}

/// A scheduled retry: the next request (with one counter incremented),
/// the reason, and how long to sleep before re-entering search.
#[derive(Debug, Clone)]
pub struct RetryRequest {
    pub target: RetryTarget,
    pub reason: RetryReason,
    pub backoff_secs: u64,
}

/// Why a submission was terminally rejected. A low score is carried in
/// thousandths, so the record stays in plain integers.
#[derive(Debug, Clone)]
pub enum RejectReason {
    AlreadyDownloaded,
    LowScore(u32),
    NotMusic(String),
    AbandonedAttemptingSearch,
}

/// A terminal failure record for one submission.
#[derive(Debug, Clone)]
pub struct RejectedTrack {
    pub submission: JudgeSubmission,
    pub reason: RejectReason,
}

impl RejectedTrack {
    pub fn new(submission: JudgeSubmission, reason: RejectReason) -> (r: RejectedTrack)
        ensures
            r.submission == submission,
            r.reason == reason,
    {
        RejectedTrack { submission, reason }
    }

    /// The record split into its submission and its reason.
    pub fn parts(&self) -> (r: (&JudgeSubmission, &RejectReason))
        ensures
            *r.0 == self.submission,
            *r.1 == self.reason,
    {
        (&self.submission, &self.reason)
    }
}

/// The pipeline event: the sole currency of the coordinator channel.
#[derive(Debug, Clone)]
pub enum Track {
    Query(Vec<SearchItem>),
    Search(SearchRequest),
    SearchResults(SearchResults),
    Judge(SearchResults),
    JudgeResults(JudgeResults),
    Downloadable(DownloadRequest),
    DownloadFailed(DownloadFailureInfo),
    File(DownloadedFile),
    Retry(RetryRequest),
    Reject(RejectedTrack),
}

/// The library's error: what a verified function reports instead of
/// panicking or wrapping a foreign error.
#[derive(Debug, Clone)]
pub enum PipelineError {
    ChannelClosed,
    InvalidConfigValue(String),
    PersistenceFailed(String),
}

/// A long-running pipeline component that a runtime drives to completion.
pub trait Manager {
    fn run(self) -> Result<(), PipelineError>;
}

} // verus!
