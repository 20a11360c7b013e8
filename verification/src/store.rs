//! The persistence model: the rows one event commits, the mapping from
//! runtime values to rows and back, and the wire values of the reject
//! reason. The relational store itself lives outside; it receives these
//! rows and assigns the integer keys.

use vstd::prelude::*;

use crate::config::{all_digits, dec_value, digit_val, is_digit};
use crate::events::{
    DownloadedFile, PipelineError, RejectReason, RejectedTrack, RetryReason, RetryRequest,
    RetryTarget, SearchRequest,
};
use crate::items::{DownloadableFile, JudgeSubmission, SearchItem};
use crate::retry::{charged_attempts, retry_allowed, spec_retry_next, PipelineSettings};

verus! {

use vstd::string::StrSliceExecFns;
use vstd::string::StringExecFns;

/// One digit as text.
fn digit_str(d: u64) -> (r: &'static str)
    requires
        d < 10,
    ensures
        r@.len() == 1,
        is_digit(r@[0]),
        digit_val(r@[0]) == d,
{
    proof {
        reveal_strlit("0");
        reveal_strlit("1");
        reveal_strlit("2");
        reveal_strlit("3");
        reveal_strlit("4");
        reveal_strlit("5");
        reveal_strlit("6");
        reveal_strlit("7");
        reveal_strlit("8");
        reveal_strlit("9");
    }
    if d == 0 {
        "0"
    } else if d == 1 {
        "1"
    } else if d == 2 {
        "2"
    } else if d == 3 {
        "3"
    } else if d == 4 {
        "4"
    } else if d == 5 {
        "5"
    } else if d == 6 {
        "6"
    } else if d == 7 {
        "7"
    } else if d == 8 {
        "8"
    } else {
        "9"
    }
}

/// A number rendered as decimal text: all digits, and reading the text
/// back yields the number.
pub fn format_u64(n: u64) -> (r: String)
    ensures
        r@.len() > 0,
        all_digits(r@),
        dec_value(r@) == n,
    decreases n,
{
    if n < 10 {
        let d = digit_str(n);
        let s = String::from_str(d);
        proof {
            assert(s@.drop_last() =~= Seq::<char>::empty());
            assert(s@.last() == d@[0]);
            assert(s@.len() == 1);
            assert(dec_value(s@) == dec_value(s@.drop_last()) * 10 + digit_val(s@.last()));
            assert(dec_value(s@.drop_last()) == 0);
            assert(dec_value(s@) == digit_val(d@[0]));
            assert(digit_val(d@[0]) == n);
        }
        s
    } else {
        let high = format_u64(n / 10);
        let d = digit_str(n % 10);
        let r = high.concat(d);
        proof {
            assert(r@.drop_last() =~= high@);
            assert(r@.last() == d@[0]);
            assert(all_digits(r@)) by {
                assert forall|i: int| 0 <= i < r@.len() implies is_digit(#[trigger] r@[i]) by {
                    if i < high@.len() {
                        assert(r@[i] == high@[i]);
                    } else {
                        assert(r@[i] == d@[0]);
                    }
                }
            }
        }
        r
    }
}

/// A stored track row, as the store returns it.
#[derive(Debug, Clone)]
pub struct SearchItemRow {
    pub id: i32,
    pub track_id: u64,
    pub track: String,
    pub artist: String,
    pub album: String,
}

/// A track row to insert.
#[derive(Debug, Clone)]
pub struct NewSearchItemRow {
    pub track_id: u64,
    pub track: String,
    pub artist: String,
    pub album: String,
}

impl NewSearchItemRow {
    /// The row a track inserts: its stable id and its three text fields.
    pub fn from_item(value: &SearchItem) -> (r: NewSearchItemRow)
        ensures
            r.track_id == value.id,
            r.track == value.track,
            r.artist == value.artist,
            r.album == value.album,
    {
        NewSearchItemRow {
            track_id: value.id,
            track: value.track.clone(),
            artist: value.artist.clone(),
            album: value.album.clone(),
        }
    }
}

impl SearchItemRow {
    /// The track a stored row denotes.
    pub fn to_item(&self) -> (r: SearchItem)
        ensures
            r.id == self.track_id,
            r.track == self.track,
            r.artist == self.artist,
            r.album == self.album,
    {
        SearchItem {
            id: self.track_id,
            track: self.track.clone(),
            album: self.album.clone(),
            artist: self.artist.clone(),
        }
    }
}

/// A stored candidate-file row.
#[derive(Debug, Clone)]
pub struct DownloadableFileRow {
    pub id: i32,
    pub filename: String,
    pub username: String,
    pub size: u64,
}

/// A candidate-file row to insert.
#[derive(Debug, Clone)]
pub struct NewDownloadableFileRow {
    pub filename: String,
    pub username: String,
    pub size: u64,
}

impl NewDownloadableFileRow {
    /// The row a candidate file inserts.
    pub fn from_file(value: &DownloadableFile) -> (r: NewDownloadableFileRow)
        ensures
            r.filename == value.filename,
            r.username == value.username,
            r.size == value.size,
    {
        NewDownloadableFileRow {
            filename: value.filename.clone(),
            username: value.username.clone(),
            size: value.size,
        }
    }
}

impl DownloadableFileRow {
    /// The candidate file a stored row denotes.
    pub fn to_file(&self) -> (r: DownloadableFile)
        ensures
            r.filename == self.filename,
            r.username == self.username,
            r.size == self.size,
    {
        DownloadableFile {
            filename: self.filename.clone(),
            username: self.username.clone(),
            size: self.size,
        }
    }
}

/// A stored submission row: two foreign keys.
#[derive(Debug, Clone)]
pub struct JudgeSubmissionRow {
    pub id: i32,
    pub track: i32,
    pub query: i32,
}

/// A submission row to insert.
#[derive(Debug, Clone)]
pub struct NewJudgeSubmissionRow {
    pub track: i32,
    pub query: i32,
}

/// A submission row joined with the rows its keys point at.
#[derive(Debug, Clone)]
pub struct JudgeSubmissionJoined {
    pub row: JudgeSubmissionRow,
    pub track: SearchItemRow,
    pub query: DownloadableFileRow,
}

impl JudgeSubmissionJoined {
    /// The runtime submission a joined row denotes.
    pub fn to_submission(&self) -> (r: JudgeSubmission)
        ensures
            r.track.id == self.track.track_id,
            r.track.track == self.track.track,
            r.track.artist == self.track.artist,
            r.track.album == self.track.album,
            r.query.filename == self.query.filename,
            r.query.username == self.query.username,
            r.query.size == self.query.size,
    {
        JudgeSubmission { track: self.track.to_item(), query: self.query.to_file() }
    }
}

/// A stored downloaded-file row.
#[derive(Debug, Clone)]
pub struct DownloadedFileRow {
    pub id: i32,
    pub filename: String,
}

/// A downloaded-file row to insert: the path the file landed at.
#[derive(Debug, Clone)]
pub struct NewDownloadedFileRow {
    pub filename: String,
}

impl NewDownloadedFileRow {
    /// The row a completed download inserts.
    pub fn from_downloaded(value: &DownloadedFile) -> (r: NewDownloadedFileRow)
        ensures
            r.filename == value.path,
    {
        NewDownloadedFileRow { filename: value.path.clone() }
    }
}

/// A stored retry row.
#[derive(Debug, Clone)]
pub struct RetryRequestRow {
    pub id: i32,
    pub request: i32,
    pub retry_attempts: i32,
    pub failed_download_result: i32,
}

/// A retry row to insert.
#[derive(Debug, Clone)]
pub struct NewRetryRequestRow {
    pub request: i32,
    pub retry_attempts: i32,
    pub failed_download_result: i32,
}

impl NewRetryRequestRow {
    /// The row a scheduled retry inserts, against the already-assigned
    /// keys of its submission and its failed candidate: it records the
    /// re-entered request's charged attempt counter.
    pub fn from_retry(request_id: i32, failed_download_id: i32, value: &RetryRequest) -> (r:
        NewRetryRequestRow)
        ensures
            r.request == request_id,
            r.failed_download_result == failed_download_id,
            value.target matches RetryTarget::Search(req) ==> r.retry_attempts == charged_attempts(
                req,
                value.reason,
            ),
    {
        let attempts: u8 = match &value.target {
            RetryTarget::Search(req) => match value.reason {
                RetryReason::SearchNoResults => req.search_attempts,
                RetryReason::JudgeNoMatch => req.judge_attempts,
                RetryReason::DownloadFailed(_) => req.download_attempts,
            },
        };
        NewRetryRequestRow {
            request: request_id,
            retry_attempts: attempts as i32,
            failed_download_result: failed_download_id,
        }
    }
}

/// Replaying the retry policy on a stored retry's predecessor
/// reproduces the recorded next-attempt counter: what the row records
/// is exactly one more than the predecessor's charged counter.
pub proof fn lemma_retry_row_replay(s: PipelineSettings, req: SearchRequest, reason: RetryReason)
    requires
        retry_allowed(s, req, reason),
    ensures
        charged_attempts(spec_retry_next(s, req, reason), reason) == charged_attempts(req, reason)
            + 1,
{
}

/// A retry row joined with the rows its keys point at.
#[derive(Debug, Clone)]
pub struct RetryRequestJoined {
    pub row: RetryRequestRow,
    pub request: JudgeSubmissionJoined,
    pub failed_download_result: DownloadableFileRow,
}

/// The payload-free reject reason the store keeps.
#[derive(Debug, Clone, Copy, PartialEq, Eq, Structural)]
pub enum RejectReasonRow {
    AlreadyDownloaded,
    LowScore,
    NotMusic,
    AbandonedAttemptingSearch,
}

/// The stored tag of a runtime reason: payloads are dropped.
pub open spec fn spec_reason_row(value: RejectReason) -> RejectReasonRow {
    match value {
        RejectReason::AlreadyDownloaded => RejectReasonRow::AlreadyDownloaded,
        RejectReason::LowScore(_) => RejectReasonRow::LowScore,
        RejectReason::NotMusic(_) => RejectReasonRow::NotMusic,
        RejectReason::AbandonedAttemptingSearch => RejectReasonRow::AbandonedAttemptingSearch,
    }
}

impl RejectReasonRow {
    /// Drop the payload of a runtime reason, keeping its tag.
    pub fn from_reason(value: &RejectReason) -> (r: RejectReasonRow)
        ensures
            r == spec_reason_row(*value),
    {
        match value {
            RejectReason::AlreadyDownloaded => RejectReasonRow::AlreadyDownloaded,
            RejectReason::LowScore(_) => RejectReasonRow::LowScore,
            RejectReason::NotMusic(_) => RejectReasonRow::NotMusic,
            RejectReason::AbandonedAttemptingSearch => RejectReasonRow::AbandonedAttemptingSearch,
        }
    }

    /// The runtime reason a stored tag denotes. The store keeps no
    /// payload, so the payload-carrying variants come back empty.
    pub fn to_reason(&self) -> (r: RejectReason)
        ensures
            spec_reason_row(r) == *self,
            *self == RejectReasonRow::LowScore ==> r == RejectReason::LowScore(0u32),
            *self == RejectReasonRow::NotMusic ==> (r matches RejectReason::NotMusic(s) && s@
                =~= Seq::<char>::empty()),
    {
        match self {
            RejectReasonRow::AlreadyDownloaded => RejectReason::AlreadyDownloaded,
            RejectReasonRow::LowScore => RejectReason::LowScore(0),
            RejectReasonRow::NotMusic => RejectReason::NotMusic(String::new()),
            RejectReasonRow::AbandonedAttemptingSearch => RejectReason::AbandonedAttemptingSearch,
        }
    }

    /// The wire value the store writes for each tag.
    pub fn to_wire(&self) -> (r: String)
        ensures
            r@ == spec_wire_of(*self),
    {
        match self {
            RejectReasonRow::AlreadyDownloaded => String::from_str("already_downloaded"),
            RejectReasonRow::LowScore => String::from_str("low_score"),
            RejectReasonRow::NotMusic => String::from_str("not_music"),
            RejectReasonRow::AbandonedAttemptingSearch => String::from_str(
                "abandoned_attempting_search",
            ),
        }
    }

    /// Read a wire value back. Succeeds exactly on the four known wire
    /// values, and returns the tag each one denotes.
    pub fn from_wire(s: &str) -> (r: Result<RejectReasonRow, PipelineError>)
        ensures
            r matches Ok(v) ==> spec_wire_of(v) == s@,
            (exists|v: RejectReasonRow| spec_wire_of(v) == s@) <==> r is Ok,
    {
        let owned = String::from_str(s);
        proof {
            lemma_wire_values_distinct();
        }
        if owned == String::from_str("already_downloaded") {
            proof {
                assert(spec_wire_of(RejectReasonRow::AlreadyDownloaded) == s@);
            }
            Ok(RejectReasonRow::AlreadyDownloaded)
        } else if owned == String::from_str("low_score") {
            proof {
                assert(spec_wire_of(RejectReasonRow::LowScore) == s@);
            }
            Ok(RejectReasonRow::LowScore)
        } else if owned == String::from_str("not_music") {
            proof {
                assert(spec_wire_of(RejectReasonRow::NotMusic) == s@);
            }
            Ok(RejectReasonRow::NotMusic)
        } else if owned == String::from_str("abandoned_attempting_search") {
            proof {
                assert(spec_wire_of(RejectReasonRow::AbandonedAttemptingSearch) == s@);
            }
            Ok(RejectReasonRow::AbandonedAttemptingSearch)
        } else {
            proof {
                assert(forall|v: RejectReasonRow| spec_wire_of(v) != s@) by {
                    assert(spec_wire_of(RejectReasonRow::AlreadyDownloaded) != s@);
                    assert(spec_wire_of(RejectReasonRow::LowScore) != s@);
                    assert(spec_wire_of(RejectReasonRow::NotMusic) != s@);
                    assert(spec_wire_of(RejectReasonRow::AbandonedAttemptingSearch) != s@);
                }
            }
            Err(PipelineError::PersistenceFailed(owned))
        }
    }
}

/// The wire value of each stored tag.
pub open spec fn spec_wire_of(v: RejectReasonRow) -> Seq<char> {
    match v {
        RejectReasonRow::AlreadyDownloaded => "already_downloaded"@,
        RejectReasonRow::LowScore => "low_score"@,
        RejectReasonRow::NotMusic => "not_music"@,
        RejectReasonRow::AbandonedAttemptingSearch => "abandoned_attempting_search"@,
    }
}

/// The four wire values are pairwise distinct, so reading a wire value
/// back always restores the tag that wrote it.
pub proof fn lemma_wire_values_distinct()
    ensures
        forall|v1: RejectReasonRow, v2: RejectReasonRow|
            spec_wire_of(v1) == spec_wire_of(v2) ==> v1 == v2,
{
    reveal_strlit("already_downloaded");
    reveal_strlit("low_score");
    reveal_strlit("not_music");
    reveal_strlit("abandoned_attempting_search");
    assert(spec_wire_of(RejectReasonRow::AlreadyDownloaded).len() == 18);
    assert(spec_wire_of(RejectReasonRow::LowScore).len() == 9);
    assert(spec_wire_of(RejectReasonRow::NotMusic).len() == 9);
    assert(spec_wire_of(RejectReasonRow::AbandonedAttemptingSearch).len() == 27);
    assert(spec_wire_of(RejectReasonRow::LowScore)[0] == 'l');
    assert(spec_wire_of(RejectReasonRow::NotMusic)[0] == 'n');
}

/// A stored rejection row.
#[derive(Debug, Clone)]
pub struct RejectedTrackRow {
    pub id: i32,
    pub track: i32,
    pub reason: RejectReasonRow,
}

/// A rejection row to insert: the tag, and the payload (a score in
/// thousandths, or a filename) in the separate `value` column.
#[derive(Debug, Clone)]
pub struct NewRejectedTrackRow {
    pub track: i32,
    pub reason: RejectReasonRow,
    pub value: Option<String>,
}

impl NewRejectedTrackRow {
    /// The row a terminal rejection inserts, against the submission's
    /// already-assigned key: the reason's tag, with the payload
    /// stringified into the `value` column and null where the reason
    /// carries none.
    pub fn from_runtime(track_id: i32, value: &RejectedTrack) -> (r: NewRejectedTrackRow)
        ensures
            r.track == track_id,
            r.reason == spec_reason_row(value.reason),
            value.reason is AlreadyDownloaded ==> r.value is None,
            value.reason is AbandonedAttemptingSearch ==> r.value is None,
            value.reason matches RejectReason::LowScore(score) ==> (r.value matches Some(s)
                && all_digits(s@) && dec_value(s@) == score),
            value.reason matches RejectReason::NotMusic(name) ==> (r.value matches Some(s) && s
                == name),
    {
        let (_, reason) = value.parts();
        let stored: Option<String> = match reason {
            RejectReason::AlreadyDownloaded => None,
            RejectReason::AbandonedAttemptingSearch => None,
            RejectReason::LowScore(score) => Some(format_u64(*score as u64)),
            RejectReason::NotMusic(filename) => Some(filename.clone()),
        };
        NewRejectedTrackRow {
            track: track_id,
            reason: RejectReasonRow::from_reason(reason),
            value: stored,
        }
    }
}

/// A rejection row joined with the submission it points at.
#[derive(Debug, Clone)]
pub struct RejectedTrackJoined {
    pub row: RejectedTrackRow,
    pub track: JudgeSubmissionJoined,
}

impl RejectedTrackJoined {
    /// The runtime record a joined rejection row denotes.
    pub fn to_rejected(&self) -> (r: RejectedTrack)
        ensures
            spec_reason_row(r.reason) == self.row.reason,
            r.submission.track.id == self.track.track.track_id,
            r.submission.track.track == self.track.track.track,
            r.submission.track.artist == self.track.track.artist,
            r.submission.track.album == self.track.track.album,
            r.submission.query.filename == self.track.query.filename,
            r.submission.query.username == self.track.query.username,
            r.submission.query.size == self.track.query.size,
    {
        RejectedTrack::new(self.track.to_submission(), self.row.reason.to_reason())
    }
}

} // verus!
