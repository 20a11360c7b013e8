//! The download stage's decisions: the audio-extension gate, the
//! duplicate gate, the destination path, and the classification of the
//! status stream a download produces.

use vstd::prelude::*;

use crate::events::{
    DownloadFailure, DownloadFailureInfo, DownloadRequest, DownloadedFile, PipelineError,
    RejectReason, Track,
};
use crate::items::{DownloadableFile, JudgeSubmission, SearchItem};

verus! {

use vstd::string::StrSliceExecFns;
use vstd::string::StringExecFns;

/// The character matches a lowercase ASCII letter, ignoring case:
/// either it is that letter, or it is its ASCII uppercase form.
pub open spec fn matches_lower(c: char, lower: char) -> bool {
    c == lower || ('A' <= c && c <= 'Z' && (c as int) + 32 == lower as int)
}

/// The name ends with the given all-lowercase suffix, ignoring ASCII
/// case in the name.
pub open spec fn ends_with_ignoring_case(name: Seq<char>, suffix: Seq<char>) -> bool {
    name.len() >= suffix.len() && forall|i: int|
        0 <= i < suffix.len() ==> matches_lower(
            name[name.len() - suffix.len() + i],
            #[trigger] suffix[i],
        )
}

/// The content-type gate: the filename's extension, lowercased, is one
/// of the accepted audio extensions.
pub open spec fn is_audio_filename(name: Seq<char>) -> bool {
    ||| ends_with_ignoring_case(name, ".mp3"@)
    ||| ends_with_ignoring_case(name, ".flac"@)
    ||| ends_with_ignoring_case(name, ".aiff"@)
}

/// Case-insensitive suffix test against an all-lowercase ASCII suffix.
fn ends_with_lower(s: &str, suffix: &str) -> (r: bool)
    ensures
        r == ends_with_ignoring_case(s@, suffix@),
{
    let n = s.unicode_len();
    let m = suffix.unicode_len();
    if n < m {
        return false;
    }
    let mut i: usize = 0;
    while i < m
        invariant
            m <= n == s@.len(),
            m == suffix@.len(),
            i <= m,
            forall|k: int|
                0 <= k < i ==> matches_lower(s@[n - m + k], #[trigger] suffix@[k]),
        decreases m - i,
    {
        let c = s.get_char(n - m + i);
        let d = suffix.get_char(i);
        if !(c == d || (c >= 'A' && c <= 'Z' && (c as u32) + 32 == (d as u32))) {
            return false;
        }
        i = i + 1;
    }
    true
}

/// Whether the filename names an audio file the pipeline will download.
pub fn is_audio_file(filename: String) -> (r: bool)
    ensures
        r == is_audio_filename(filename@),
{
    let s = filename.as_str();
    ends_with_lower(s, ".mp3") || ends_with_lower(s, ".flac") || ends_with_lower(s, ".aiff")
}

/// Whether this track was already handed to the download stage.
pub fn has_been_downloaded(track: &SearchItem, tracks: &Vec<SearchItem>) -> (r: bool)
    ensures
        r == exists|i: int| 0 <= i < tracks@.len() && (#[trigger] tracks@[i]).id == track.id,
{
    let mut i: usize = 0;
    while i < tracks.len()
        invariant
            i <= tracks@.len(),
            forall|k: int| 0 <= k < i ==> (#[trigger] tracks@[k]).id != track.id,
        decreases tracks@.len() - i,
    {
        if tracks[i].id == track.id {
            return true;
        }
        i = i + 1;
    }
    false
}

/// The part of the name after its last `/`, or the whole name when it
/// holds none.
pub open spec fn basename(name: Seq<char>) -> Seq<char>
    decreases name.len(),
{
    if name.len() == 0 {
        name
    } else if name.last() == '/' {
        Seq::<char>::empty()
    } else {
        basename(name.drop_last()).push(name.last())
    }
}

/// The final path component, the way a filesystem resolves it:
/// trailing separators and trailing current-directory components are
/// ignored; a parent-directory component in final position leaves no
/// component; otherwise the last component is the name's basename.
pub open spec fn path_file_name(name: Seq<char>) -> Option<Seq<char>>
    decreases name.len(),
{
    if name.len() == 0 {
        Option::<Seq<char>>::None
    } else if name.last() == '/' {
        path_file_name(name.drop_last())
    } else if basename(name) == "."@ {
        path_file_name(name.take(name.len() - 1))
    } else if basename(name) == ".."@ {
        Option::<Seq<char>>::None
    } else {
        Option::<Seq<char>>::Some(basename(name))
    }
}

/// A component bounded on the left by a separator or the start is the
/// basename of everything up to its end.
proof fn lemma_basename_is_suffix(s: Seq<char>, start: int)
    requires
        0 <= start < s.len(),
        forall|k: int| start <= k < s.len() ==> s[k] != '/',
        start > 0 ==> s[start - 1] == '/',
    ensures
        basename(s) == s.skip(start),
    decreases s.len() - start,
{
    if s.len() - 1 == start {
        if start == 0 {
            assert(s.drop_last() =~= Seq::<char>::empty());
            assert(basename(s.drop_last()).push(s.last()) =~= s.skip(0));
        } else {
            assert(s.drop_last().last() == s[start - 1]);
            assert(basename(s.drop_last()) =~= Seq::<char>::empty());
            assert(Seq::<char>::empty().push(s.last()) =~= s.skip(start));
        }
    } else {
        lemma_basename_is_suffix(s.drop_last(), start);
        assert(s.drop_last().skip(start).push(s.last()) =~= s.skip(start));
    }
}

/// The destination of a download: the root directory joined with the
/// final path component of the remote filename. Fails exactly when no
/// component remains: the name is empty or all separators, or its last
/// real component is the parent directory and would escape the root.
pub fn download_path(root: &String, track: &JudgeSubmission) -> (r: Result<String, PipelineError>)
    ensures
        path_file_name(track.query.filename@) matches Some(c) ==> (r matches Ok(p) && p@ == root@
            + "/"@ + c),
        path_file_name(track.query.filename@) is None ==> r is Err,
{
    let name = track.query.filename.as_str();
    let n = name.unicode_len();
    let mut end: usize = n;
    proof {
        assert(name@.take(n as int) =~= name@);
    }
    while end > 0
        invariant
            name@ == track.query.filename@,
            end <= n == name@.len(),
            path_file_name(name@) == path_file_name(name@.take(end as int)),
        decreases end,
    {
        proof {
            assert(name@.take(end as int).drop_last() =~= name@.take(end - 1));
            assert(name@.take(end as int).last() == name@[end - 1]);
        }
        if name.get_char(end - 1) == '/' {
            end = end - 1;
        } else {
            let mut start: usize = end;
            while start > 0 && name.get_char(start - 1) != '/'
                invariant
                    start <= end <= n == name@.len(),
                    forall|k: int| start <= k < end ==> name@[k] != '/',
                decreases start,
            {
                start = start - 1;
            }
            proof {
                lemma_basename_is_suffix(name@.take(end as int), start as int);
                assert(name@.take(end as int).skip(start as int) =~= name@.subrange(
                    start as int,
                    end as int,
                ));
            }
            let comp = name.substring_char(start, end);
            let comp_owned = String::from_str(comp);
            proof {
                reveal_strlit(".");
                reveal_strlit("..");
            }
            if comp_owned == String::from_str(".") {
                proof {
                    assert(name@.take(end as int).take(end - 1) =~= name@.take(end - 1));
                }
                end = end - 1;
            } else if comp_owned == String::from_str("..") {
                proof {
                    assert(basename(name@.take(end as int)) == ".."@);
                    assert(path_file_name(name@.take(end as int)) is None);
                }
                return Err(
                    PipelineError::InvalidConfigValue(String::from_str("parent component")),
                );
            } else {
                proof {
                    assert(basename(name@.take(end as int)) == comp@);
                    assert(comp@ != "."@ && comp@ != ".."@);
                    assert(path_file_name(name@.take(end as int)) == Some(comp@));
                }
                let path = root.clone().concat("/").concat(comp);
                return Ok(path);
            }
        }
    }
    proof {
        assert(name@.take(0) =~= Seq::<char>::empty());
    }
    Err(PipelineError::InvalidConfigValue(String::from_str("empty basename")))
}

/// A batch of candidate files, ready for the download stage.
#[derive(Debug, Clone)]
pub struct DownloadableFiles(pub Vec<DownloadableFile>);

impl DownloadableFiles {
    /// Convert a result batch into candidate files, in order.
    pub fn from_entries(files: &Vec<crate::search::FileEntry>) -> (r: DownloadableFiles)
        ensures
            r.0@.len() == files@.len(),
            forall|i: int|
                0 <= i < files@.len() ==> {
                    &&& (#[trigger] r.0@[i]).filename@ == files@[i].name@
                    &&& r.0@[i].username@ == files@[i].username@
                    &&& r.0@[i].size == files@[i].size
                },
    {
        let mut out: Vec<DownloadableFile> = Vec::new();
        let mut i: usize = 0;
        while i < files.len()
            invariant
                i <= files@.len(),
                out@.len() == i,
                forall|k: int|
                    0 <= k < i ==> {
                        &&& (#[trigger] out@[k]).filename@ == files@[k].name@
                        &&& out@[k].username@ == files@[k].username@
                        &&& out@[k].size == files@[k].size
                    },
            decreases files@.len() - i,
        {
            let f = &files[i];
            out.push(
                DownloadableFile {
                    filename: f.name.clone(),
                    username: f.username.clone(),
                    size: f.size,
                },
            );
            i = i + 1;
        }
        DownloadableFiles(out)
    }

    /// The plain list of candidates.
    pub fn into_vec(self) -> (r: Vec<DownloadableFile>)
        ensures
            r == self.0,
    {
        self.0
    }
}

/// The status messages a running download reports, as plain values.
#[derive(Debug, Clone, Copy, PartialEq, Eq, Structural)]
pub enum DownloadStatus {
    Queued,
    InProgress { bytes_downloaded: u64, total_bytes: u64, speed_bytes_per_sec: u64 },
    Completed,
    Failed,
    TimedOut,
}

/// How one download invocation ended.
#[derive(Debug, Clone, Copy, PartialEq, Eq, Structural)]
pub enum DownloadOutcome {
    Completed,
    Failed,
    TimedOut,
}

/// What one status message decides, if anything: progress messages
/// decide nothing; the three terminal messages decide the outcome.
pub open spec fn spec_classify_status(status: DownloadStatus) -> Option<DownloadOutcome> {
    match status {
        DownloadStatus::Queued => None,
        DownloadStatus::InProgress { .. } => None,
        DownloadStatus::Completed => Some(DownloadOutcome::Completed),
        DownloadStatus::Failed => Some(DownloadOutcome::Failed),
        DownloadStatus::TimedOut => Some(DownloadOutcome::TimedOut),
    }
}

/// Classify one status message.
pub fn classify_status(status: &DownloadStatus) -> (r: Option<DownloadOutcome>)
    ensures
        r == spec_classify_status(*status),
{
    match status {
        DownloadStatus::Queued => None,
        DownloadStatus::InProgress { .. } => None,
        DownloadStatus::Completed => Some(DownloadOutcome::Completed),
        DownloadStatus::Failed => Some(DownloadOutcome::Failed),
        DownloadStatus::TimedOut => Some(DownloadOutcome::TimedOut),
    }
}

/// The outcome of a whole status stream: the first terminal message
/// decides; a stream that ends without one is a timeout, as the
/// receiver's own timeout is what ended it.
pub open spec fn spec_classify_stream(statuses: Seq<DownloadStatus>) -> DownloadOutcome
    decreases statuses.len(),
{
    if statuses.len() == 0 {
        DownloadOutcome::TimedOut
    } else {
        match spec_classify_status(statuses.first()) {
            Some(outcome) => outcome,
            None => spec_classify_stream(statuses.drop_first()),
        }
    }
}

/// Classify a recorded status stream.
pub fn classify_stream(statuses: &Vec<DownloadStatus>) -> (r: DownloadOutcome)
    ensures
        r == spec_classify_stream(statuses@),
{
    let mut i: usize = 0;
    proof {
        assert(statuses@.skip(0) =~= statuses@);
    }
    while i < statuses.len()
        invariant
            i <= statuses@.len(),
            spec_classify_stream(statuses@.skip(i as int)) == spec_classify_stream(statuses@),
            forall|k: int|
                0 <= k < i ==> spec_classify_status(#[trigger] statuses@[k]) is None,
        decreases statuses@.len() - i,
    {
        proof {
            assert(statuses@.skip(i as int).drop_first() =~= statuses@.skip(i + 1));
            assert(statuses@.skip(i as int).first() == statuses@[i as int]);
        }
        if let Some(outcome) = classify_status(&statuses[i]) {
            return outcome;
        }
        i = i + 1;
    }
    proof {
        assert(statuses@.skip(statuses@.len() as int) =~= Seq::<DownloadStatus>::empty());
    }
    DownloadOutcome::TimedOut
}

/// The event one finished download emits: a completed download becomes
/// the terminal `File`, and each failure becomes `DownloadFailed` with
/// the matching failure kind.
pub fn outcome_event(request: DownloadRequest, outcome: DownloadOutcome, path: String) -> (r:
    Track)
    ensures
        outcome == DownloadOutcome::Completed ==> (r matches Track::File(f) && f.submission
            == request.submission && f.path == path),
        outcome == DownloadOutcome::Failed ==> (r matches Track::DownloadFailed(info)
            && info.request == request.request && info.submission == request.submission
            && info.failure == DownloadFailure::Failed),
        outcome == DownloadOutcome::TimedOut ==> (r matches Track::DownloadFailed(info)
            && info.request == request.request && info.submission == request.submission
            && info.failure == DownloadFailure::TimedOut),
{
    match outcome {
        DownloadOutcome::Completed => Track::File(
            DownloadedFile { submission: request.submission, path },
        ),
        DownloadOutcome::Failed => Track::DownloadFailed(
            DownloadFailureInfo {
                request: request.request,
                submission: request.submission,
                failure: DownloadFailure::Failed,
            },
        ),
        DownloadOutcome::TimedOut => Track::DownloadFailed(
            DownloadFailureInfo {
                request: request.request,
                submission: request.submission,
                failure: DownloadFailure::TimedOut,
            },
        ),
    }
}

/// The coordinator's gate in front of the download stage: a non-audio
/// filename is terminally rejected, a track already handed to the
/// download stage is rejected as a duplicate, and everything else may
/// proceed.
pub fn download_gate(submission: &JudgeSubmission, downloaded: &Vec<SearchItem>) -> (r: Option<
    RejectReason,
>)
    ensures
        !is_audio_filename(submission.query.filename@) ==> (r matches Some(
            RejectReason::NotMusic(name),
        ) && name@ == submission.query.filename@),
        is_audio_filename(submission.query.filename@) && (exists|i: int|
            0 <= i < downloaded@.len() && (#[trigger] downloaded@[i]).id == submission.track.id)
            ==> r == Some(RejectReason::AlreadyDownloaded),
        is_audio_filename(submission.query.filename@) && !(exists|i: int|
            0 <= i < downloaded@.len() && (#[trigger] downloaded@[i]).id == submission.track.id)
            ==> r is None,
{
    if !is_audio_file(submission.query.filename.clone()) {
        return Some(RejectReason::NotMusic(submission.query.filename.clone()));
    }
    if has_been_downloaded(&submission.track, downloaded) {
        return Some(RejectReason::AlreadyDownloaded);
    }
    None
}

} // verus!
