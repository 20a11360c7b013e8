//! The coordinator: the single consumer of the event queue. It commits
//! each event, dispatches it by tag, emits the follow-up events, tracks
//! the pending and in-flight counters, and stops at quiescence.
//!
//! Workers are parameterized by scripts: what the peer network returns
//! per poll, how the judge decides, and how each download ends. The
//! asynchronous runtime that drives the same decisions against the real
//! network lives outside and calls the same stage functions.

use vstd::prelude::*;

use crate::download::{
    basename, download_gate, download_path, is_audio_filename, outcome_event, DownloadOutcome,
};
use crate::events::{
    DownloadFailure, DownloadRequest, JudgeResults, RejectReason, RejectedTrack, RetryReason,
    RetryRequest, RetryTarget, SearchRequest, SearchResults, Track,
};
use crate::items::{item_rendering, DownloadableFile, JudgeSubmission, SearchItem};
use crate::judge::{accepted_of, levenshtein_accepts, levenshtein_verdicts, select_accepted};
use crate::retry::{build_retry, retry_allowed, spec_retry_next, PipelineSettings};
use crate::search::{clone_submissions, FileEntry, SearchSession, TIMES_WITH_NO_NEW_FILES};

verus! {

/// The tag of an event: what the persistence sink records about it.
#[derive(Debug, Clone, Copy, PartialEq, Eq, Structural)]
pub enum EventKind {
    Query,
    Search,
    SearchResults,
    Judge,
    JudgeResults,
    Downloadable,
    DownloadFailed,
    File,
    Retry,
    Reject,
}

/// The tag of an event.
pub open spec fn tag_of(t: Track) -> EventKind {
    match t {
        Track::Query(..) => EventKind::Query,
        Track::Search(..) => EventKind::Search,
        Track::SearchResults(..) => EventKind::SearchResults,
        Track::Judge(..) => EventKind::Judge,
        Track::JudgeResults(..) => EventKind::JudgeResults,
        Track::Downloadable(..) => EventKind::Downloadable,
        Track::DownloadFailed(..) => EventKind::DownloadFailed,
        Track::File(..) => EventKind::File,
        Track::Retry(..) => EventKind::Retry,
        Track::Reject(..) => EventKind::Reject,
    }
}

/// Read an event's tag.
pub fn event_tag(t: &Track) -> (r: EventKind)
    ensures
        r == tag_of(*t),
{
    match t {
        Track::Query(..) => EventKind::Query,
        Track::Search(..) => EventKind::Search,
        Track::SearchResults(..) => EventKind::SearchResults,
        Track::Judge(..) => EventKind::Judge,
        Track::JudgeResults(..) => EventKind::JudgeResults,
        Track::Downloadable(..) => EventKind::Downloadable,
        Track::DownloadFailed(..) => EventKind::DownloadFailed,
        Track::File(..) => EventKind::File,
        Track::Retry(..) => EventKind::Retry,
        Track::Reject(..) => EventKind::Reject,
    }
}

/// How the scripted judge decides.
#[derive(Debug, Clone, Copy)]
pub enum JudgeScript {
    AcceptAll,
    RejectAll,
    EditDistance(u32),
}

/// The verdict the scripted judge gives each submission.
pub open spec fn judge_verdicts_spec(j: JudgeScript, subs: Seq<JudgeSubmission>) -> Seq<bool> {
    Seq::new(
        subs.len(),
        |i: int|
            match j {
                JudgeScript::AcceptAll => true,
                JudgeScript::RejectAll => false,
                JudgeScript::EditDistance(c) => levenshtein_accepts(
                    item_rendering(subs[i].track),
                    subs[i].query.filename@,
                    c,
                ),
            },
    )
}

/// Compute the scripted judge's verdicts.
pub fn judge_verdicts(script: JudgeScript, subs: &Vec<JudgeSubmission>) -> (r: Vec<bool>)
    ensures
        r@ =~= judge_verdicts_spec(script, subs@),
{
    match script {
        JudgeScript::EditDistance(c) => {
            let r = levenshtein_verdicts(subs, c);
            proof {
                assert(r@ =~= judge_verdicts_spec(script, subs@));
            }
            r
        },
        JudgeScript::AcceptAll => {
            let mut out: Vec<bool> = Vec::new();
            let mut i: usize = 0;
            while i < subs.len()
                invariant
                    i <= subs@.len(),
                    out@.len() == i,
                    forall|k: int| 0 <= k < i ==> out@[k] == true,
                decreases subs@.len() - i,
            {
                out.push(true);
                i = i + 1;
            }
            proof {
                assert(out@ =~= judge_verdicts_spec(script, subs@));
            }
            out
        },
        JudgeScript::RejectAll => {
            let mut out: Vec<bool> = Vec::new();
            let mut i: usize = 0;
            while i < subs.len()
                invariant
                    i <= subs@.len(),
                    out@.len() == i,
                    forall|k: int| 0 <= k < i ==> out@[k] == false,
                decreases subs@.len() - i,
            {
                out.push(false);
                i = i + 1;
            }
            proof {
                assert(out@ =~= judge_verdicts_spec(script, subs@));
            }
            out
        },
    }
}

/// What the scripted workers will do: per search invocation a list of
/// poll batches, one judge rule, and per download invocation an
/// outcome. Cursors advance as invocations consume the scripts; past
/// the end, a search polls nothing and a download times out.
#[derive(Debug)]
pub struct WorkerScripts {
    pub search_polls: Vec<Vec<Vec<FileEntry>>>,
    pub next_search: usize,
    pub judge: JudgeScript,
    pub download_outcomes: Vec<DownloadOutcome>,
    pub next_download: usize,
}

/// The outcome the next download invocation will report.
pub open spec fn next_download_outcome(s: WorkerScripts) -> DownloadOutcome {
    if s.next_download < s.download_outcomes@.len() {
        s.download_outcomes@[s.next_download as int]
    } else {
        DownloadOutcome::TimedOut
    }
}

/// What a scripted search session returns: scan the batches in order,
/// appending each batch's fresh submissions, counting consecutive
/// batches that brought nothing new, and stopping once four did.
pub open spec fn session_scan(
    item: SearchItem,
    batches: Seq<Vec<FileEntry>>,
    b: int,
    acc: Seq<JudgeSubmission>,
    empty_polls: int,
) -> Seq<JudgeSubmission>
    decreases batches.len() - b,
{
    if b < 0 || b >= batches.len() || empty_polls > TIMES_WITH_NO_NEW_FILES {
        acc
    } else {
        let fresh = crate::search::fresh_submissions(item, batches[b]@, acc);
        session_scan(
            item,
            batches,
            b + 1,
            acc + fresh,
            if fresh.len() > 0 {
                0
            } else {
                empty_polls + 1
            },
        )
    }
}

/// Run one whole search session against a scripted poll list: absorb
/// each batch in order until the session cancels, then keep polling
/// emptiness until it does. Returns the session and how many scripted
/// batches were consumed: all of them, unless four consecutive batches
/// brought nothing new first. The submissions are exactly the fold of
/// the consumed batches.
pub fn run_search_session(item: SearchItem, polls: &Vec<Vec<FileEntry>>) -> (r: (
    SearchSession,
    usize,
))
    ensures
        r.0.wf(),
        r.0.item == item,
        r.0.cancelled,
        r.1 <= polls@.len(),
        r.1 == polls@.len() || r.1 >= 4,
        r.0.submissions@ == session_scan(item, polls@, 0, Seq::<JudgeSubmission>::empty(), 0),
        forall|b: int, k: int|
            0 <= b < r.1 && 0 <= k < polls@[b]@.len() ==> crate::search::has_key(
                r.0.submissions@,
                (#[trigger] polls@[b]@[k]).name@,
                polls@[b]@[k].username@,
            ),
{
    let mut session = SearchSession::new(item);
    let empty_batch: Vec<FileEntry> = Vec::new();
    let mut consumed: usize = 0;
    proof {
        assert(session.submissions@ =~= Seq::<JudgeSubmission>::empty());
    }
    while consumed < polls.len() && !session.cancelled
        invariant
            session.wf(),
            session.item == item,
            consumed <= polls@.len(),
            session.empty_polls <= consumed,
            session.empty_polls <= TIMES_WITH_NO_NEW_FILES + 1,
            session_scan(
                item,
                polls@,
                consumed as int,
                session.submissions@,
                session.empty_polls as int,
            ) == session_scan(item, polls@, 0, Seq::<JudgeSubmission>::empty(), 0),
            forall|b: int, k: int|
                0 <= b < consumed && 0 <= k < polls@[b]@.len() ==> crate::search::has_key(
                    session.submissions@,
                    (#[trigger] polls@[b]@[k]).name@,
                    polls@[b]@[k].username@,
                ),
        decreases polls@.len() - consumed,
    {
        let ghost before = session.submissions@;
        session.absorb_poll(&polls[consumed]);
        consumed = consumed + 1;
        proof {
            crate::search::lemma_has_key_extended(before, session.submissions@);
        }
    }
    let scripted = consumed;
    proof {
        if scripted < polls@.len() {
            assert(session.cancelled);
        }
        assert(session.submissions@ == session_scan(
            item,
            polls@,
            0,
            Seq::<JudgeSubmission>::empty(),
            0,
        ));
    }
    while !session.cancelled
        invariant
            empty_batch@.len() == 0,
            session.wf(),
            session.item == item,
            scripted <= polls@.len(),
            scripted == polls@.len() || scripted >= 4,
            session.submissions@ == session_scan(
                item,
                polls@,
                0,
                Seq::<JudgeSubmission>::empty(),
                0,
            ),
            forall|b: int, k: int|
                0 <= b < scripted && 0 <= k < polls@[b]@.len() ==> crate::search::has_key(
                    session.submissions@,
                    (#[trigger] polls@[b]@[k]).name@,
                    polls@[b]@[k].username@,
                ),
        decreases crate::search::TIMES_WITH_NO_NEW_FILES + 2 - session.empty_polls,
    {
        let ghost before = session.submissions@;
        session.absorb_poll(&empty_batch);
        proof {
            if session.submissions@.len() > before.len() {
                assert(crate::search::has_entry(
                    empty_batch@,
                    session.submissions@[before.len() as int],
                ));
            }
            assert(session.submissions@ =~= before);
            crate::search::lemma_has_key_extended(before, session.submissions@);
        }
    }
    (session, scripted)
}

/// Whether the event is the terminal event of the given track: its
/// completed `File`, or its terminal abandonment.
pub open spec fn is_terminal_for(t: Track, id: u64) -> bool {
    match t {
        Track::File(f) => f.submission.track.id == id,
        Track::Reject(r) => r.reason is AbandonedAttemptingSearch && r.submission.track.id == id,
        _ => false,
    }
}

/// How many terminal events for the track the stream holds.
pub open spec fn count_terminals(s: Seq<Track>, id: u64) -> int
    decreases s.len(),
{
    if s.len() == 0 {
        0
    } else {
        (if is_terminal_for(s.first(), id) {
            1int
        } else {
            0int
        }) + count_terminals(s.drop_first(), id)
    }
}

/// Appending an event adds its terminal count.
pub proof fn lemma_count_push(s: Seq<Track>, t: Track, id: u64)
    ensures
        count_terminals(s.push(t), id) == count_terminals(s, id) + (if is_terminal_for(t, id) {
            1int
        } else {
            0int
        }),
    decreases s.len(),
{
    if s.len() == 0 {
        assert(s.push(t).drop_first() =~= Seq::<Track>::empty());
        assert(s.push(t).first() == t);
        assert(count_terminals(s.push(t).drop_first(), id) == 0);
    } else {
        assert(s.push(t).drop_first() =~= s.drop_first().push(t));
        assert(s.push(t).first() == s.first());
        lemma_count_push(s.drop_first(), t, id);
        assert(count_terminals(s.push(t), id) == (if is_terminal_for(s.first(), id) {
            1int
        } else {
            0int
        }) + count_terminals(s.drop_first().push(t), id));
    }
}

/// Concatenation adds terminal counts.
pub proof fn lemma_count_concat(s1: Seq<Track>, s2: Seq<Track>, id: u64)
    ensures
        count_terminals(s1 + s2, id) == count_terminals(s1, id) + count_terminals(s2, id),
    decreases s2.len(),
{
    if s2.len() == 0 {
        assert(s1 + s2 =~= s1);
    } else {
        assert(s1 + s2 =~= (s1.push(s2.first())) + s2.drop_first());
        lemma_count_push(s1, s2.first(), id);
        lemma_count_concat(s1.push(s2.first()), s2.drop_first(), id);
    }
}

/// Counts are never negative.
pub proof fn lemma_count_nonneg(s: Seq<Track>, id: u64)
    ensures
        count_terminals(s, id) >= 0,
    decreases s.len(),
{
    if s.len() > 0 {
        lemma_count_nonneg(s.drop_first(), id);
    }
}

/// Some listed track carries this id.
pub open spec fn contains_id(s: Seq<SearchItem>, id: u64) -> bool {
    exists|i: int| 0 <= i < s.len() && (#[trigger] s[i]).id == id
}

/// The stand-in candidate recorded when a track is abandoned before any
/// candidate existed: the track paired with an empty file.
pub fn placeholder_submission(item: SearchItem) -> (r: JudgeSubmission)
    ensures
        r.track == item,
        r.query.filename@ =~= Seq::<char>::empty(),
        r.query.username@ =~= Seq::<char>::empty(),
        r.query.size == 0,
{
    JudgeSubmission {
        track: item,
        query: DownloadableFile {
            filename: String::new(),
            username: String::new(),
            size: 0,
        },
    }
}

/// An accepted audio filename always resolves to a usable final
/// component — its whole basename — so the destination path of a gated
/// download always exists: its last character is a letter or a digit,
/// never a separator or a dot.
proof fn lemma_audio_basename_valid(name: Seq<char>)
    requires
        is_audio_filename(name),
    ensures
        crate::download::path_file_name(name) == Some(basename(name)),
{
    reveal_strlit(".mp3");
    reveal_strlit(".flac");
    reveal_strlit(".aiff");
    reveal_strlit(".");
    reveal_strlit("..");
    assert(name.len() > 0);
    assert(name.last() != '/' && name.last() != '.') by {
        if crate::download::ends_with_ignoring_case(name, ".mp3"@) {
            assert(crate::download::matches_lower(name[name.len() - 1], ".mp3"@[3]));
        } else if crate::download::ends_with_ignoring_case(name, ".flac"@) {
            assert(crate::download::matches_lower(name[name.len() - 1], ".flac"@[4]));
        } else {
            assert(crate::download::matches_lower(name[name.len() - 1], ".aiff"@[4]));
        }
    }
    assert(basename(name).len() > 0);
    assert(basename(name).last() == name.last());
    assert(basename(name) != "."@) by {
        if basename(name) == "."@ {
            assert(basename(name).last() == '.');
        }
    }
    assert(basename(name) != ".."@) by {
        if basename(name) == ".."@ {
            assert(basename(name).last() == '.');
        }
    }
}

/// The terminal accounting of one dispatch: when no track completed,
/// the follow-ups hold no terminal event; when one did, it was not yet
/// terminated and exactly one terminal follow-up names it.
pub open spec fn dispatch_terminals_ok(
    terminated: Seq<SearchItem>,
    children: Seq<Track>,
    completed: Option<SearchItem>,
) -> bool {
    &&& completed is None ==> forall|id: u64| count_terminals(children, id) == 0
    &&& completed matches Some(it) ==> {
        &&& !contains_id(terminated, it.id)
        &&& count_terminals(children, it.id) == 1
        &&& forall|id: u64| id != it.id ==> count_terminals(children, id) == 0
    }
}

/// How one dispatch advances the worker scripts: a search consumes one
/// session script, an ungated download consumes one outcome, and
/// nothing else moves a cursor.
pub open spec fn dispatch_scripts_ok(
    terminated: Seq<SearchItem>,
    event: Track,
    s0: WorkerScripts,
    s1: WorkerScripts,
) -> bool {
    match event {
        Track::Search(_) => s1 == WorkerScripts {
            next_search: if s0.next_search < s0.search_polls@.len() {
                (s0.next_search + 1) as usize
            } else {
                s0.next_search
            },
            ..s0
        },
        Track::Downloadable(d) => if is_audio_filename(d.submission.query.filename@)
            && !contains_id(terminated, d.submission.track.id) {
            s1 == WorkerScripts {
                next_download: if s0.next_download < s0.download_outcomes@.len() {
                    (s0.next_download + 1) as usize
                } else {
                    s0.next_download
                },
                ..s0
            }
        } else {
            s1 == s0
        },
        _ => s1 == s0,
    }
}

/// One dispatch case: a query fans out one fresh search request per item.
pub open spec fn dispatch_query_ok(
    settings: PipelineSettings,
    download_root: Seq<char>,
    terminated: Seq<SearchItem>,
    event: Track,
    s0: WorkerScripts,
    children: Seq<Track>,
    completed: Option<SearchItem>,
) -> bool {
    event matches Track::Query(items) ==> {
        &&& children.len() == items@.len()
        &&& forall|i: int|
            0 <= i < items@.len() ==> (#[trigger] children[i] matches Track::Search(req)
                && req.item == items@[i] && req.search_attempts == 0 && req.judge_attempts == 0
                && req.download_attempts == 0 && req.timeout_secs == settings.search_timeout_secs)
    }
}

/// One dispatch case: a search emits one result set from its scripted session.
pub open spec fn dispatch_search_ok(
    settings: PipelineSettings,
    download_root: Seq<char>,
    terminated: Seq<SearchItem>,
    event: Track,
    s0: WorkerScripts,
    children: Seq<Track>,
    completed: Option<SearchItem>,
) -> bool {
    event matches Track::Search(req) ==> children.len() == 1 && (children[0] matches
        Track::SearchResults(res) && res.request == req && crate::search::distinct_keys(
        res.submissions@,
    ) && (forall|i: int|
        0 <= i < res.submissions@.len() ==> (#[trigger] res.submissions@[i]).track == req.item) && {
        let batches: Seq<Vec<FileEntry>> = if s0.next_search < s0.search_polls@.len() {
            s0.search_polls@[s0.next_search as int]@
        } else {
            Seq::<Vec<FileEntry>>::empty()
        };
        res.submissions@ == session_scan(
            req.item,
            batches,
            0,
            Seq::<JudgeSubmission>::empty(),
            0,
        )
    })
}

/// One dispatch case: search results forward to the judge, or retry, or abandon.
pub open spec fn dispatch_search_results_ok(
    settings: PipelineSettings,
    download_root: Seq<char>,
    terminated: Seq<SearchItem>,
    event: Track,
    s0: WorkerScripts,
    children: Seq<Track>,
    completed: Option<SearchItem>,
) -> bool {
    event matches Track::SearchResults(res) ==> {
        &&& res.submissions@.len() > 0 ==> children.len() == 1 && (children[0] matches
            Track::Judge(j) && j.request == res.request && j.submissions@ == res.submissions@)
        &&& res.submissions@.len() == 0 && retry_allowed(
            settings,
            res.request,
            RetryReason::SearchNoResults,
        ) ==> children.len() == 1 && (children[0] matches Track::Retry(rr) && rr.reason
            == RetryReason::SearchNoResults && rr.target == RetryTarget::Search(
            spec_retry_next(settings, res.request, RetryReason::SearchNoResults),
        ))
        &&& res.submissions@.len() == 0 && !retry_allowed(
            settings,
            res.request,
            RetryReason::SearchNoResults,
        ) && !contains_id(terminated, res.request.item.id) ==> children.len() == 1 && (children[0]
            matches Track::Reject(rt) && rt.reason is AbandonedAttemptingSearch
            && rt.submission.track == res.request.item)
        &&& res.submissions@.len() == 0 && !retry_allowed(
            settings,
            res.request,
            RetryReason::SearchNoResults,
        ) && contains_id(terminated, res.request.item.id) ==> children.len() == 0
    }
}

/// One dispatch case: a judge run scores every submission against the scripted rule.
pub open spec fn dispatch_judge_ok(
    settings: PipelineSettings,
    download_root: Seq<char>,
    terminated: Seq<SearchItem>,
    event: Track,
    s0: WorkerScripts,
    children: Seq<Track>,
    completed: Option<SearchItem>,
) -> bool {
    event matches Track::Judge(res) ==> children.len() == 1 && (children[0] matches
        Track::JudgeResults(j) && j.request == res.request && j.total == res.submissions@.len()
        && j.accepted@.len() == accepted_of(
        res.submissions@,
        judge_verdicts_spec(s0.judge, res.submissions@),
    ).len() && (forall|k: int|
        0 <= k < j.accepted@.len() ==> (#[trigger] j.accepted@[k]).submission == accepted_of(
            res.submissions@,
            judge_verdicts_spec(s0.judge, res.submissions@),
        )[k] && j.accepted@[k].request == res.request))
}

/// One dispatch case: judge results fan out one download per accepted candidate, or retry, or abandon.
pub open spec fn dispatch_judge_results_ok(
    settings: PipelineSettings,
    download_root: Seq<char>,
    terminated: Seq<SearchItem>,
    event: Track,
    s0: WorkerScripts,
    children: Seq<Track>,
    completed: Option<SearchItem>,
) -> bool {
    event matches Track::JudgeResults(j) ==> {
        &&& j.accepted@.len() > 0 ==> children.len() == j.accepted@.len() && forall|i: int|
            0 <= i < j.accepted@.len() ==> (#[trigger] children[i] matches Track::Downloadable(d)
                && d == j.accepted@[i])
        &&& j.accepted@.len() == 0 && retry_allowed(
            settings,
            j.request,
            RetryReason::JudgeNoMatch,
        ) ==> children.len() == 1 && (children[0] matches Track::Retry(rr) && rr.reason
            == RetryReason::JudgeNoMatch && rr.target == RetryTarget::Search(
            spec_retry_next(settings, j.request, RetryReason::JudgeNoMatch),
        ))
        &&& j.accepted@.len() == 0 && !retry_allowed(
            settings,
            j.request,
            RetryReason::JudgeNoMatch,
        ) && !contains_id(terminated, j.request.item.id) ==> children.len() == 1 && (children[0]
            matches Track::Reject(rt) && rt.reason is AbandonedAttemptingSearch
            && rt.submission.track == j.request.item)
        &&& j.accepted@.len() == 0 && !retry_allowed(
            settings,
            j.request,
            RetryReason::JudgeNoMatch,
        ) && contains_id(terminated, j.request.item.id) ==> children.len() == 0
    }
}

/// One dispatch case: a download is gated, then completes into a file or fails.
pub open spec fn dispatch_downloadable_ok(
    settings: PipelineSettings,
    download_root: Seq<char>,
    terminated: Seq<SearchItem>,
    event: Track,
    s0: WorkerScripts,
    children: Seq<Track>,
    completed: Option<SearchItem>,
) -> bool {
    event matches Track::Downloadable(d) ==> {
        &&& !is_audio_filename(d.submission.query.filename@) ==> children.len() == 1 && (
        children[0] matches Track::Reject(rt) && rt.reason matches RejectReason::NotMusic(n) && n@
            == d.submission.query.filename@ && rt.submission == d.submission)
        &&& is_audio_filename(d.submission.query.filename@) && contains_id(
            terminated,
            d.submission.track.id,
        ) ==> children.len() == 1 && (children[0] matches Track::Reject(rt) && rt.reason
            is AlreadyDownloaded && rt.submission == d.submission)
        &&& is_audio_filename(d.submission.query.filename@) && !contains_id(
            terminated,
            d.submission.track.id,
        ) ==> {
            &&& next_download_outcome(s0) == DownloadOutcome::Completed ==> children.len() == 1
                && (children[0] matches Track::File(f) && f.submission == d.submission && f.path@
                == download_root + "/"@ + basename(d.submission.query.filename@)) && completed
                == Some(d.submission.track)
            &&& next_download_outcome(s0) != DownloadOutcome::Completed ==> children.len() == 1
                && (children[0] matches Track::DownloadFailed(info) && info.request == d.request
                && info.submission == d.submission && (next_download_outcome(s0)
                == DownloadOutcome::Failed ==> info.failure == DownloadFailure::Failed) && (
            next_download_outcome(s0) == DownloadOutcome::TimedOut ==> info.failure
                == DownloadFailure::TimedOut))
        }
    }
}

/// One dispatch case: a failed download retries, or abandons the track.
pub open spec fn dispatch_download_failed_ok(
    settings: PipelineSettings,
    download_root: Seq<char>,
    terminated: Seq<SearchItem>,
    event: Track,
    s0: WorkerScripts,
    children: Seq<Track>,
    completed: Option<SearchItem>,
) -> bool {
    event matches Track::DownloadFailed(info) ==> {
        &&& retry_allowed(settings, info.request, RetryReason::DownloadFailed(info.failure))
            ==> children.len() == 1 && (children[0] matches Track::Retry(rr) && rr.reason
            == RetryReason::DownloadFailed(info.failure) && rr.target == RetryTarget::Search(
            spec_retry_next(settings, info.request, RetryReason::DownloadFailed(info.failure)),
        ))
        &&& !retry_allowed(settings, info.request, RetryReason::DownloadFailed(info.failure))
            && !contains_id(terminated, info.submission.track.id) ==> children.len() == 1 && (
        children[0] matches Track::Reject(rt) && rt.reason is AbandonedAttemptingSearch
            && rt.submission == info.submission)
        &&& !retry_allowed(settings, info.request, RetryReason::DownloadFailed(info.failure))
            && contains_id(terminated, info.submission.track.id) ==> children.len() == 0
    }
}

/// One dispatch case: a retry re-enters search with its prepared request.
pub open spec fn dispatch_retry_ok(
    settings: PipelineSettings,
    download_root: Seq<char>,
    terminated: Seq<SearchItem>,
    event: Track,
    s0: WorkerScripts,
    children: Seq<Track>,
    completed: Option<SearchItem>,
) -> bool {
    event matches Track::Retry(rr) ==> children.len() == 1 && (rr.target matches
        RetryTarget::Search(req) ==> (children[0] matches Track::Search(next) && next == req))
}

/// One dispatch case: a completed file is terminal: nothing follows it.
pub open spec fn dispatch_file_ok(
    settings: PipelineSettings,
    download_root: Seq<char>,
    terminated: Seq<SearchItem>,
    event: Track,
    s0: WorkerScripts,
    children: Seq<Track>,
    completed: Option<SearchItem>,
) -> bool {
    event matches Track::File(f) ==> children.len() == 0 && completed is None
}

/// One dispatch case: a rejection is terminal: nothing follows it.
pub open spec fn dispatch_reject_ok(
    settings: PipelineSettings,
    download_root: Seq<char>,
    terminated: Seq<SearchItem>,
    event: Track,
    s0: WorkerScripts,
    children: Seq<Track>,
    completed: Option<SearchItem>,
) -> bool {
    event matches Track::Reject(rt) ==> children.len() == 0 && completed is None
}

/// The per-event decision table: which follow-up events each
/// dispatched event emits, with their exact contents.
pub open spec fn dispatch_children_ok(
    settings: PipelineSettings,
    download_root: Seq<char>,
    terminated: Seq<SearchItem>,
    event: Track,
    s0: WorkerScripts,
    children: Seq<Track>,
    completed: Option<SearchItem>,
) -> bool {
    &&& dispatch_query_ok(settings, download_root, terminated, event, s0, children, completed)
    &&& dispatch_search_ok(settings, download_root, terminated, event, s0, children, completed)
    &&& dispatch_search_results_ok(settings, download_root, terminated, event, s0, children, completed)
    &&& dispatch_judge_ok(settings, download_root, terminated, event, s0, children, completed)
    &&& dispatch_judge_results_ok(settings, download_root, terminated, event, s0, children, completed)
    &&& dispatch_downloadable_ok(settings, download_root, terminated, event, s0, children, completed)
    &&& dispatch_download_failed_ok(settings, download_root, terminated, event, s0, children, completed)
    &&& dispatch_retry_ok(settings, download_root, terminated, event, s0, children, completed)
    &&& dispatch_file_ok(settings, download_root, terminated, event, s0, children, completed)
    &&& dispatch_reject_ok(settings, download_root, terminated, event, s0, children, completed)
}

/// The coordinator's decision table: what one dispatched event makes
/// of the state. `children` are the follow-up events in emission
/// order; `completed` is the track a terminal follow-up terminates, if
/// one was emitted; `s0` and `s1` are the worker scripts before and
/// after.
pub open spec fn dispatches_to(
    settings: PipelineSettings,
    download_root: Seq<char>,
    terminated: Seq<SearchItem>,
    event: Track,
    s0: WorkerScripts,
    s1: WorkerScripts,
    children: Seq<Track>,
    completed: Option<SearchItem>,
) -> bool {
    &&& dispatch_terminals_ok(terminated, children, completed)
    &&& dispatch_scripts_ok(terminated, event, s0, s1)
    &&& dispatch_children_ok(settings, download_root, terminated, event, s0, children, completed)
}

/// Dispatch one event per the decision table. Returns the follow-up
/// events in emission order and, when one of them is terminal, the
/// track it terminates; a terminal event is only ever emitted for a
/// track not yet terminated.
#[allow(unused_variables)]
#[verifier::spinoff_prover]
#[verifier::rlimit(60)]
pub fn dispatch(
    settings: &PipelineSettings,
    download_root: &String,
    event: &Track,
    terminated: &Vec<SearchItem>,
    scripts: &mut WorkerScripts,
) -> (r: (Vec<Track>, Option<SearchItem>))
    ensures
        dispatches_to(
            *settings,
            download_root@,
            terminated@,
            *event,
            *old(scripts),
            *final(scripts),
            r.0@,
            r.1,
        ),
{
    let mut children: Vec<Track> = Vec::new();
    let mut completed: Option<SearchItem> = None;
    match event {
        Track::Query(items) => {
            let mut i: usize = 0;
            while i < items.len()
                invariant
                    i <= items@.len(),
                    children@.len() == i,
                    forall|k: int|
                        0 <= k < i ==> (#[trigger] children@[k] matches Track::Search(req)
                            && req.item == items@[k] && req.search_attempts == 0
                            && req.judge_attempts == 0 && req.download_attempts == 0
                            && req.timeout_secs == settings.search_timeout_secs),
                    forall|id: u64| count_terminals(children@, id) == 0,
                decreases items@.len() - i,
            {
                let request = SearchRequest {
                    item: items[i].clone(),
                    search_attempts: 0,
                    judge_attempts: 0,
                    download_attempts: 0,
                    timeout_secs: settings.search_timeout_secs,
                };
                let child = Track::Search(request);
                proof {
                    assert forall|id: u64| count_terminals(children@.push(child), id) == 0 by {
                        lemma_count_push(children@, child, id);
                    }
                }
                children.push(child);
                i = i + 1;
            }
        },
        Track::Search(req) => {
            let idx = scripts.next_search;
            let ghost batches: Seq<Vec<FileEntry>> = if idx < scripts.search_polls@.len() {
                scripts.search_polls@[idx as int]@
            } else {
                Seq::<Vec<FileEntry>>::empty()
            };
            let (session, _consumed) = if idx < scripts.search_polls.len() {
                let pair = run_search_session(req.item.clone(), &scripts.search_polls[idx]);
                scripts.next_search = idx + 1;
                pair
            } else {
                let empty_script: Vec<Vec<FileEntry>> = Vec::new();
                proof {
                    assert(empty_script@ =~= batches);
                }
                run_search_session(req.item.clone(), &empty_script)
            };
            proof {
                assert(session.submissions@ == session_scan(
                    req.item,
                    batches,
                    0,
                    Seq::<JudgeSubmission>::empty(),
                    0,
                ));
            }
            let results = session.into_results(req.clone());
            let child = Track::SearchResults(results);
            proof {
                assert forall|id: u64| count_terminals(children@.push(child), id) == 0 by {
                    lemma_count_push(children@, child, id);
                }
            }
            children.push(child);
            proof {
                assert(batches == (if old(scripts).next_search < old(
                    scripts,
                ).search_polls@.len() {
                    old(scripts).search_polls@[old(scripts).next_search as int]@
                } else {
                    Seq::<Vec<FileEntry>>::empty()
                }));
                assert(dispatch_search_ok(
                    *settings,
                    download_root@,
                    terminated@,
                    *event,
                    *old(scripts),
                    children@,
                    completed,
                ));
            }
        },
        Track::SearchResults(res) => {
            if res.submissions.len() > 0 {
                let forwarded = SearchResults {
                    request: res.request.clone(),
                    submissions: clone_submissions(&res.submissions),
                };
                let child = Track::Judge(forwarded);
                proof {
                    assert forall|id: u64| count_terminals(children@.push(child), id) == 0 by {
                        lemma_count_push(children@, child, id);
                    }
                }
                children.push(child);
            } else {
                match build_retry(settings, res.request.clone(), RetryReason::SearchNoResults) {
                    Some(retry) => {
                        let child = Track::Retry(retry);
                        proof {
                            assert forall|id: u64|
                                count_terminals(children@.push(child), id) == 0 by {
                                lemma_count_push(children@, child, id);
                            }
                        }
                        children.push(child);
                    },
                    None => {
                        if !crate::download::has_been_downloaded(&res.request.item, terminated) {
                            let submission = placeholder_submission(res.request.item.clone());
                            let child = Track::Reject(
                                RejectedTrack::new(
                                    submission,
                                    RejectReason::AbandonedAttemptingSearch,
                                ),
                            );
                            proof {
                                assert forall|id: u64|
                                    id != res.request.item.id ==> count_terminals(
                                        children@.push(child),
                                        id,
                                    ) == 0 by {
                                    lemma_count_push(children@, child, id);
                                }
                                lemma_count_push(children@, child, res.request.item.id);
                            }
                            children.push(child);
                            completed = Some(res.request.item.clone());
                        }
                    },
                }
            }
        },
        Track::Judge(res) => {
            let verdicts = judge_verdicts(scripts.judge, &res.submissions);
            let judged = select_accepted(
                res.request.clone(),
                clone_submissions(&res.submissions),
                &verdicts,
            );
            let child = Track::JudgeResults(judged);
            proof {
                assert forall|id: u64| count_terminals(children@.push(child), id) == 0 by {
                    lemma_count_push(children@, child, id);
                }
            }
            children.push(child);
        },
        Track::JudgeResults(j) => {
            if j.accepted.len() > 0 {
                let mut i: usize = 0;
                while i < j.accepted.len()
                    invariant
                        i <= j.accepted@.len(),
                        children@.len() == i,
                        forall|k: int|
                            0 <= k < i ==> (#[trigger] children@[k] matches Track::Downloadable(d)
                                && d == j.accepted@[k]),
                        forall|id: u64| count_terminals(children@, id) == 0,
                    decreases j.accepted@.len() - i,
                {
                    let child = Track::Downloadable(j.accepted[i].clone());
                    proof {
                        assert forall|id: u64| count_terminals(children@.push(child), id) == 0 by {
                            lemma_count_push(children@, child, id);
                        }
                    }
                    children.push(child);
                    i = i + 1;
                }
            } else {
                match build_retry(settings, j.request.clone(), RetryReason::JudgeNoMatch) {
                    Some(retry) => {
                        let child = Track::Retry(retry);
                        proof {
                            assert forall|id: u64|
                                count_terminals(children@.push(child), id) == 0 by {
                                lemma_count_push(children@, child, id);
                            }
                        }
                        children.push(child);
                    },
                    None => {
                        if !crate::download::has_been_downloaded(&j.request.item, terminated) {
                            let submission = placeholder_submission(j.request.item.clone());
                            let child = Track::Reject(
                                RejectedTrack::new(
                                    submission,
                                    RejectReason::AbandonedAttemptingSearch,
                                ),
                            );
                            proof {
                                assert forall|id: u64|
                                    id != j.request.item.id ==> count_terminals(
                                        children@.push(child),
                                        id,
                                    ) == 0 by {
                                    lemma_count_push(children@, child, id);
                                }
                                lemma_count_push(children@, child, j.request.item.id);
                            }
                            children.push(child);
                            completed = Some(j.request.item.clone());
                        }
                    },
                }
            }
        },
        Track::Downloadable(d) => {
            match download_gate(&d.submission, terminated) {
                Some(reason) => {
                    let child = Track::Reject(RejectedTrack::new(d.submission.clone(), reason));
                    proof {
                        assert forall|id: u64| count_terminals(children@.push(child), id) == 0 by {
                            lemma_count_push(children@, child, id);
                        }
                    }
                    children.push(child);
                },
                None => {
                    let oidx = scripts.next_download;
                    let outcome = if oidx < scripts.download_outcomes.len() {
                        let o = scripts.download_outcomes[oidx];
                        scripts.next_download = oidx + 1;
                        o
                    } else {
                        DownloadOutcome::TimedOut
                    };
                    proof {
                        lemma_audio_basename_valid(d.submission.query.filename@);
                    }
                    let path = match download_path(download_root, &d.submission) {
                        Ok(p) => p,
                        Err(_) => {
                            proof {
                                assert(false);
                            }
                            String::new()
                        },
                    };
                    let child = outcome_event(d.clone(), outcome, path);
                    if matches!(outcome, DownloadOutcome::Completed) {
                        proof {
                            assert(is_terminal_for(child, d.submission.track.id));
                            assert forall|id: u64|
                                id != d.submission.track.id ==> count_terminals(
                                    children@.push(child),
                                    id,
                                ) == 0 by {
                                lemma_count_push(children@, child, id);
                            }
                            lemma_count_push(children@, child, d.submission.track.id);
                        }
                        children.push(child);
                        completed = Some(d.submission.track.clone());
                    } else {
                        proof {
                            assert forall|id: u64| count_terminals(children@.push(child), id)
                                == 0 by {
                                lemma_count_push(children@, child, id);
                            }
                        }
                        children.push(child);
                    }
                },
            }
        },
        Track::DownloadFailed(info) => {
            match build_retry(
                settings,
                info.request.clone(),
                RetryReason::DownloadFailed(info.failure),
            ) {
                Some(retry) => {
                    let child = Track::Retry(retry);
                    proof {
                        assert forall|id: u64| count_terminals(children@.push(child), id) == 0 by {
                            lemma_count_push(children@, child, id);
                        }
                    }
                    children.push(child);
                },
                None => {
                    if !crate::download::has_been_downloaded(&info.submission.track, terminated) {
                        let child = Track::Reject(
                            RejectedTrack::new(
                                info.submission.clone(),
                                RejectReason::AbandonedAttemptingSearch,
                            ),
                        );
                        proof {
                            assert forall|id: u64|
                                id != info.submission.track.id ==> count_terminals(
                                    children@.push(child),
                                    id,
                                ) == 0 by {
                                lemma_count_push(children@, child, id);
                            }
                            lemma_count_push(children@, child, info.submission.track.id);
                        }
                        children.push(child);
                        completed = Some(info.submission.track.clone());
                    }
                },
            }
        },
        Track::Retry(rr) => {
            match &rr.target {
                RetryTarget::Search(req) => {
                    let child = Track::Search(req.clone());
                    proof {
                        assert forall|id: u64| count_terminals(children@.push(child), id) == 0 by {
                            lemma_count_push(children@, child, id);
                        }
                    }
                    children.push(child);
                },
            }
        },
        Track::File(_) => {},
        Track::Reject(_) => {},
    }
    proof {
        assert(dispatch_terminals_ok(terminated@, children@, completed));
        assert(dispatch_scripts_ok(terminated@, *event, *old(scripts), *scripts));
        assert(dispatch_query_ok(
            *settings,
            download_root@,
            terminated@,
            *event,
            *old(scripts),
            children@,
            completed,
        ));
        assert(dispatch_search_ok(
            *settings,
            download_root@,
            terminated@,
            *event,
            *old(scripts),
            children@,
            completed,
        ));
        assert(dispatch_search_results_ok(
            *settings,
            download_root@,
            terminated@,
            *event,
            *old(scripts),
            children@,
            completed,
        ));
        assert(dispatch_judge_ok(
            *settings,
            download_root@,
            terminated@,
            *event,
            *old(scripts),
            children@,
            completed,
        ));
        assert(dispatch_judge_results_ok(
            *settings,
            download_root@,
            terminated@,
            *event,
            *old(scripts),
            children@,
            completed,
        ));
        assert(dispatch_downloadable_ok(
            *settings,
            download_root@,
            terminated@,
            *event,
            *old(scripts),
            children@,
            completed,
        ));
        assert(dispatch_download_failed_ok(
            *settings,
            download_root@,
            terminated@,
            *event,
            *old(scripts),
            children@,
            completed,
        ));
        assert(dispatch_retry_ok(
            *settings,
            download_root@,
            terminated@,
            *event,
            *old(scripts),
            children@,
            completed,
        ));
        assert(dispatch_file_ok(
            *settings,
            download_root@,
            terminated@,
            *event,
            *old(scripts),
            children@,
            completed,
        ));
        assert(dispatch_reject_ok(
            *settings,
            download_root@,
            terminated@,
            *event,
            *old(scripts),
            children@,
            completed,
        ));
        assert(dispatch_children_ok(
            *settings,
            download_root@,
            terminated@,
            *event,
            *old(scripts),
            children@,
            completed,
        ));
    }
    (children, completed)
}


/// The terminal discipline: each track has at most one terminal event
/// across the processed log and the live queue, and the terminated list
/// names exactly the tracks that have one.
pub open spec fn terminal_discipline(
    log: Seq<Track>,
    queue: Seq<Track>,
    terminated: Seq<SearchItem>,
) -> bool {
    &&& forall|id: u64|
        #![trigger count_terminals(queue, id)]
        #![trigger contains_id(terminated, id)]
        count_terminals(log, id) + count_terminals(queue, id) <= 1
    &&& forall|id: u64|
        #![trigger count_terminals(queue, id)]
        #![trigger contains_id(terminated, id)]
        contains_id(terminated, id) <==> count_terminals(log, id) + count_terminals(queue, id)
            == 1
}

/// The track one transition terminated, read off the terminated list:
/// none when the list is unchanged, else the track appended to it.
pub open spec fn terminated_delta(t0: Seq<SearchItem>, t1: Seq<SearchItem>) -> Option<
    SearchItem,
> {
    if t1 == t0 {
        None
    } else {
        Some(t1.last())
    }
}

/// One step of the coordinator, as a relation between states: the head
/// event of the queue is processed; its record is committed and the
/// event logged, in order; the rest of the queue is kept and the
/// follow-up events of the decision table are appended behind it; the
/// terminated list grows by exactly the track the table terminated, if
/// any; the pending counter tracks the queue and nothing stays in
/// flight.
pub open spec fn step_relation(
    c0: Coordinator,
    s0: WorkerScripts,
    c1: Coordinator,
    s1: WorkerScripts,
) -> bool {
    &&& c0.queue@.len() > 0
    &&& c1.settings == c0.settings
    &&& c1.download_root == c0.download_root
    &&& c1.log@ == c0.log@.push(c0.queue@[0])
    &&& c1.committed@ == c0.committed@.push(tag_of(c0.queue@[0]))
    &&& c1.queue@.len() >= c0.queue@.len() - 1
    &&& c1.queue@.take(c0.queue@.len() - 1) == c0.queue@.drop_first()
    &&& c1.pending == c1.queue@.len()
    &&& c1.inflight == 0
    &&& (c1.terminated@ == c0.terminated@ || c1.terminated@ == c0.terminated@.push(
        c1.terminated@.last(),
    ))
    &&& dispatches_to(
        c0.settings,
        c0.download_root@,
        c0.terminated@,
        c0.queue@[0],
        s0,
        s1,
        c1.queue@.skip(c0.queue@.len() - 1),
        terminated_delta(c0.terminated@, c1.terminated@),
    )
}

/// The state is reached from the start state by exactly `n` steps of
/// the coordinator.
pub open spec fn reaches_in(
    c0: Coordinator,
    s0: WorkerScripts,
    c1: Coordinator,
    s1: WorkerScripts,
    n: nat,
) -> bool
    decreases n,
{
    if n == 0 {
        c1 == c0 && s1 == s0
    } else {
        exists|cm: Coordinator, sm: WorkerScripts|
            #[trigger] step_relation(c0, s0, cm, sm) && reaches_in(cm, sm, c1, s1, (n - 1) as nat)
    }
}

/// One more step extends a reachability chain.
proof fn lemma_reaches_extend(
    c0: Coordinator,
    s0: WorkerScripts,
    c1: Coordinator,
    s1: WorkerScripts,
    c2: Coordinator,
    s2: WorkerScripts,
    n: nat,
)
    requires
        reaches_in(c0, s0, c1, s1, n),
        step_relation(c1, s1, c2, s2),
    ensures
        reaches_in(c0, s0, c2, s2, n + 1),
    decreases n,
{
    if n == 0 {
        assert(step_relation(c0, s0, c2, s2));
        assert(reaches_in(c2, s2, c2, s2, 0));
    } else {
        let (cm, sm) = choose|cm: Coordinator, sm: WorkerScripts|
            #[trigger] step_relation(c0, s0, cm, sm) && reaches_in(cm, sm, c1, s1, (n - 1) as nat);
        lemma_reaches_extend(cm, sm, c1, s1, c2, s2, (n - 1) as nat);
        assert(step_relation(c0, s0, cm, sm) && reaches_in(cm, sm, c2, s2, n));
    }
}

/// The coordinator's whole state: the knobs, the live queue with its
/// pending counter, the in-flight worker counter, the tracks already
/// terminated, the processed log, and the committed records.
#[derive(Debug)]
pub struct Coordinator {
    pub settings: PipelineSettings,
    pub download_root: String,
    pub queue: Vec<Track>,
    pub pending: usize,
    pub inflight: usize,
    pub terminated: Vec<SearchItem>,
    pub log: Vec<Track>,
    pub committed: Vec<EventKind>,
}

impl Coordinator {
    /// The coordinator's invariant: the pending counter equals the
    /// queue's length; workers are synchronous, so nothing is in
    /// flight between steps; every processed event has exactly one
    /// committed record, in processing order; and the terminal
    /// discipline holds.
    pub open spec fn wf(self) -> bool {
        &&& self.pending == self.queue@.len()
        &&& self.inflight == 0
        &&& self.committed@.len() == self.log@.len()
        &&& forall|i: int|
            0 <= i < self.log@.len() ==> self.committed@[i] == tag_of(#[trigger] self.log@[i])
        &&& terminal_discipline(self.log@, self.queue@, self.terminated@)
    }

    /// A fresh coordinator: empty queue, empty log, nothing committed.
    pub fn new(settings: PipelineSettings, download_root: String) -> (r: Coordinator)
        ensures
            r.wf(),
            r.settings == settings,
            r.download_root == download_root,
            r.queue@.len() == 0,
            r.pending == 0,
            r.inflight == 0,
            r.terminated@.len() == 0,
            r.log@.len() == 0,
            r.committed@.len() == 0,
    {
        let r = Coordinator {
            settings,
            download_root,
            queue: Vec::new(),
            pending: 0,
            inflight: 0,
            terminated: Vec::new(),
            log: Vec::new(),
            committed: Vec::new(),
        };
        proof {
            assert forall|id: u64| count_terminals(r.queue@, id) == 0 by {
                lemma_count_nonneg(r.queue@, id);
            }
        }
        r
    }

    /// Whether the loop may stop: nothing pending and nothing in
    /// flight. This is the sole termination condition.
    pub fn is_quiescent(&self) -> (r: bool)
        ensures
            r == (self.pending == 0 && self.inflight == 0),
    {
        self.pending == 0 && self.inflight == 0
    }

    /// Seed the pipeline with the initial query.
    pub fn seed_query(&mut self, items: Vec<SearchItem>)
        requires
            old(self).wf(),
        ensures
            final(self).wf(),
            final(self).settings == old(self).settings,
            final(self).download_root == old(self).download_root,
            final(self).queue@ == old(self).queue@.push(Track::Query(items)),
            final(self).log@ == old(self).log@,
            final(self).committed@ == old(self).committed@,
            final(self).terminated@ == old(self).terminated@,
    {
        let t = Track::Query(items);
        proof {
            assert forall|id: u64|
                count_terminals(self.queue@.push(t), id) == count_terminals(self.queue@, id) by {
                lemma_count_push(self.queue@, t, id);
            }
        }
        self.queue.push(t);
        self.pending = self.queue.len();
        proof {
            assert forall|id: u64|
                count_terminals(self.log@, id) + #[trigger] count_terminals(self.queue@, id)
                    <= 1 by {
                lemma_count_push(old(self).queue@, t, id);
                assert(count_terminals(old(self).log@, id) + count_terminals(old(self).queue@, id)
                    <= 1);
            }
            assert forall|id: u64|
                #[trigger] contains_id(self.terminated@, id) <==> count_terminals(self.log@, id)
                    + count_terminals(self.queue@, id) == 1 by {
                lemma_count_push(old(self).queue@, t, id);
                assert(contains_id(old(self).terminated@, id) <==> count_terminals(
                    old(self).log@,
                    id,
                ) + count_terminals(old(self).queue@, id) == 1);
            }
            assert(terminal_discipline(self.log@, self.queue@, self.terminated@));
        }
    }

    /// Process the event at the head of the queue: decrement pending,
    /// commit the event's record, dispatch it, account any terminal
    /// follow-up, enqueue the follow-ups in order, and append the event
    /// to the processed log. The record is committed in the same step
    /// that emits the downstream events, never later.
    pub fn step(&mut self, scripts: &mut WorkerScripts)
        requires
            old(self).wf(),
            old(self).queue@.len() > 0,
        ensures
            final(self).wf(),
            final(self).settings == old(self).settings,
            final(self).download_root == old(self).download_root,
            final(self).log@ == old(self).log@.push(old(self).queue@[0]),
            final(self).committed@ == old(self).committed@.push(tag_of(old(self).queue@[0])),
            step_relation(*old(self), *old(scripts), *final(self), *final(scripts)),
    {
        let ghost l0 = old(self).log@;
        let ghost q0 = old(self).queue@;
        let ghost t0 = old(self).terminated@;
        let event = self.queue.remove(0);
        self.pending = self.pending - 1;
        let tag = event_tag(&event);
        self.committed.push(tag);
        let (children, completed) = dispatch(
            &self.settings,
            &self.download_root,
            &event,
            &self.terminated,
            scripts,
        );
        let ghost cs = children@;
        let ghost q1 = self.queue@;
        proof {
            assert(q1 =~= q0.drop_first());
        }
        let mut rest = children;
        while rest.len() > 0
            invariant
                rest@.len() <= cs.len(),
                rest@ =~= cs.skip(cs.len() - rest@.len()),
                self.queue@ =~= q1 + cs.take(cs.len() - rest@.len()),
                self.pending == self.queue@.len(),
                self.inflight == old(self).inflight,
                self.log@ == old(self).log@,
                self.committed@ == old(self).committed@.push(tag_of(q0[0])),
                self.terminated@ == old(self).terminated@,
                self.settings == old(self).settings,
                self.download_root == old(self).download_root,
            decreases rest@.len(),
        {
            let ghost k = cs.len() - rest@.len();
            let ghost prev_rest = rest@;
            let c = rest.remove(0);
            proof {
                assert(prev_rest[0] == cs.skip(k)[0]);
                assert(cs.skip(k)[0] == cs[k]);
                assert(c == cs[k]);
                assert(rest@ =~= cs.skip(k + 1));
                assert(self.queue@.push(c) =~= q1 + cs.take(k + 1));
            }
            self.queue.push(c);
            self.pending = self.queue.len();
        }
        proof {
            assert(cs.take(cs.len() as int) =~= cs);
            assert(self.queue@ =~= q1 + cs);
        }
        let ghost completed_view = completed;
        if let Some(item) = completed {
            self.terminated.push(item);
        }
        self.log.push(event);
        proof {
            let lg = self.log@;
            let qu = self.queue@;
            let tm = self.terminated@;
            let ev = q0[0];
            assert(lg == l0.push(ev));
            assert(q0.first() == ev);
            assert forall|id: u64|
                count_terminals(lg, id) + count_terminals(qu, id) == count_terminals(l0, id)
                    + count_terminals(q0, id) + count_terminals(cs, id) by {
                lemma_count_push(l0, ev, id);
                lemma_count_concat(q1, cs, id);
            }
            if completed is None {
                assert forall|id: u64|
                    count_terminals(lg, id) + count_terminals(qu, id) <= 1 && (contains_id(
                        tm,
                        id,
                    ) <==> count_terminals(lg, id) + count_terminals(qu, id) == 1) by {
                    assert(count_terminals(cs, id) == 0);
                    assert(count_terminals(l0, id) + count_terminals(q0, id) <= 1);
                    assert(contains_id(t0, id) <==> count_terminals(l0, id) + count_terminals(
                        q0,
                        id,
                    ) == 1);
                }
            } else {
                let it = completed.unwrap();
                assert(!contains_id(t0, it.id));
                assert(tm == t0.push(it));
                assert forall|id: u64|
                    count_terminals(lg, id) + count_terminals(qu, id) <= 1 && (contains_id(
                        tm,
                        id,
                    ) <==> count_terminals(lg, id) + count_terminals(qu, id) == 1) by {
                    assert(count_terminals(l0, id) + count_terminals(q0, id) <= 1);
                    assert(contains_id(t0, id) <==> count_terminals(l0, id) + count_terminals(
                        q0,
                        id,
                    ) == 1);
                    lemma_count_nonneg(l0, id);
                    lemma_count_nonneg(q0, id);
                    if id == it.id {
                        assert(count_terminals(cs, id) == 1);
                        assert(count_terminals(l0, id) + count_terminals(q0, id) == 0);
                        assert(contains_id(tm, id)) by {
                            assert(tm[t0.len() as int].id == id);
                        }
                    } else {
                        assert(count_terminals(cs, id) == 0);
                        assert(contains_id(tm, id) <==> contains_id(t0, id)) by {
                            if contains_id(tm, id) {
                                let w = choose|w: int|
                                    0 <= w < tm.len() && (#[trigger] tm[w]).id == id;
                                assert(w < t0.len() && t0[w].id == id);
                            }
                            if contains_id(t0, id) {
                                let w = choose|w: int|
                                    0 <= w < t0.len() && (#[trigger] t0[w]).id == id;
                                assert(tm[w].id == id);
                            }
                        }
                    }
                }
            }
            assert(terminal_discipline(lg, qu, tm));
            assert(qu.take(q0.len() - 1) =~= q1);
            assert(qu.skip(q0.len() - 1) =~= cs);
            if completed_view is None {
                assert(tm == t0);
                assert(terminated_delta(t0, tm) == completed_view);
            } else {
                assert(tm == t0.push(completed_view.unwrap()));
                assert(tm.len() == t0.len() + 1);
                assert(terminated_delta(t0, tm) == completed_view);
            }
            assert(dispatches_to(
                self.settings,
                self.download_root@,
                t0,
                ev,
                *old(scripts),
                *scripts,
                qu.skip(q0.len() - 1),
                terminated_delta(t0, tm),
            ));
            assert(step_relation(*old(self), *old(scripts), *self, *scripts));
        }
    }

    /// The coordinator loop: process events, up to the given number of
    /// steps, until nothing is pending and nothing is in flight. The
    /// loop stops early only at quiescence, and returns whether it
    /// reached it: true exactly when both counters are zero. The final
    /// state is reached from the initial one by coordinator steps
    /// alone, and the loop gave up only after spending every step.
    pub fn run(&mut self, scripts: &mut WorkerScripts, max_steps: usize) -> (r: bool)
        requires
            old(self).wf(),
        ensures
            final(self).wf(),
            r == (final(self).pending == 0 && final(self).inflight == 0),
            final(self).settings == old(self).settings,
            final(self).download_root == old(self).download_root,
            exists|n: nat|
                #![trigger reaches_in(*old(self), *old(scripts), *final(self), *final(scripts), n)]
                n <= max_steps && reaches_in(
                    *old(self),
                    *old(scripts),
                    *final(self),
                    *final(scripts),
                    n,
                ) && (r || n == max_steps),
    {
        let mut steps: usize = 0;
        proof {
            assert(reaches_in(*old(self), *old(scripts), *self, *scripts, 0));
        }
        while steps < max_steps && !(self.pending == 0 && self.inflight == 0)
            invariant
                self.wf(),
                steps <= max_steps,
                self.settings == old(self).settings,
                self.download_root == old(self).download_root,
                reaches_in(*old(self), *old(scripts), *self, *scripts, steps as nat),
            decreases max_steps - steps,
        {
            let ghost c_prev = *self;
            let ghost s_prev = *scripts;
            self.step(scripts);
            proof {
                lemma_reaches_extend(
                    *old(self),
                    *old(scripts),
                    c_prev,
                    s_prev,
                    *self,
                    *scripts,
                    steps as nat,
                );
            }
            steps = steps + 1;
        }
        let quiescent = self.pending == 0 && self.inflight == 0;
        proof {
            assert(reaches_in(*old(self), *old(scripts), *self, *scripts, steps as nat));
        }
        quiescent
    }
}

/// Terminal exclusivity: however the run interleaves, a track has at
/// most one terminal event — its completed `File` or its terminal
/// abandonment — across the processed log and the live queue.
pub proof fn lemma_terminal_exclusivity(c: Coordinator, id: u64)
    requires
        c.wf(),
    ensures
        count_terminals(c.log@, id) + count_terminals(c.queue@, id) <= 1,
{
}

/// Persistence precedence, per transition: the step that enqueues an
/// event's follow-up events is the very step that appends the event's
/// committed record, so the record exists before any follow-up can be
/// processed.
pub proof fn lemma_commit_precedes_children(
    c0: Coordinator,
    s0: WorkerScripts,
    c1: Coordinator,
    s1: WorkerScripts,
)
    requires
        step_relation(c0, s0, c1, s1),
    ensures
        c1.committed@.len() == c0.committed@.len() + 1,
        c1.committed@.last() == tag_of(c0.queue@[0]),
        dispatches_to(
            c0.settings,
            c0.download_root@,
            c0.terminated@,
            c0.queue@[0],
            s0,
            s1,
            c1.queue@.skip(c0.queue@.len() - 1),
            terminated_delta(c0.terminated@, c1.terminated@),
        ),
{
}

/// Persistence precedence: the committed records are exactly the
/// processed events, in processing order. An event's record is
/// committed in the step that processes it, and every downstream event
/// it causes is enqueued in that same step or later, so the record
/// exists before any downstream event is processed.
pub proof fn lemma_commit_matches_log(c: Coordinator)
    requires
        c.wf(),
    ensures
        c.committed@.len() == c.log@.len(),
        forall|i: int| 0 <= i < c.log@.len() ==> c.committed@[i] == tag_of(#[trigger] c.log@[i]),
{
}

} // verus!\n