//! The search session: what the polling worker knows between polls, and
//! the dedup rule over everything one session has seen.

use vstd::prelude::*;

use crate::events::{SearchRequest, SearchResults};
use crate::items::{DownloadableFile, JudgeSubmission, SearchItem};

verus! {

use vstd::string::StringExecFns;

/// How many consecutive polls may bring nothing new before the session
/// cancels the blocking search.
pub const TIMES_WITH_NO_NEW_FILES: u64 = 3;

/// One file a peer offered in a poll batch.
#[derive(Debug, Clone)]
pub struct FileEntry {
    pub name: String,
    pub username: String,
    pub size: u64,
}

/// No two submissions share a `(filename, username)` key.
pub open spec fn distinct_keys(subs: Seq<JudgeSubmission>) -> bool {
    forall|i: int, j: int|
        0 <= i < j < subs.len() ==> #[trigger] subs[i].key() != #[trigger] subs[j].key()
}

/// Some submission already carries this `(filename, username)` key.
pub open spec fn has_key(subs: Seq<JudgeSubmission>, name: Seq<char>, username: Seq<char>) -> bool {
    exists|i: int|
        0 <= i < subs.len() && (#[trigger] subs[i]).query.filename@ == name
            && subs[i].query.username@ == username
}

/// The submission a batch entry induces for the searched item.
pub open spec fn entry_submission(item: SearchItem, e: FileEntry) -> JudgeSubmission {
    JudgeSubmission {
        track: item,
        query: DownloadableFile { filename: e.name, username: e.username, size: e.size },
    }
}

/// What one batch appends to a seen list: one submission per entry
/// whose key is not yet seen, in first-occurrence order, deduplicating
/// within the batch as it goes.
pub open spec fn fresh_submissions(
    item: SearchItem,
    entries: Seq<FileEntry>,
    seen: Seq<JudgeSubmission>,
) -> Seq<JudgeSubmission>
    decreases entries.len(),
{
    if entries.len() == 0 {
        Seq::<JudgeSubmission>::empty()
    } else {
        let e = entries.first();
        if has_key(seen, e.name@, e.username@) {
            fresh_submissions(item, entries.drop_first(), seen)
        } else {
            seq![entry_submission(item, e)] + fresh_submissions(
                item,
                entries.drop_first(),
                seen.push(entry_submission(item, e)),
            )
        }
    }
}

/// Processing one more entry at the end of a batch appends its
/// submission exactly when its key is new to everything seen so far.
proof fn lemma_fresh_push(
    item: SearchItem,
    entries: Seq<FileEntry>,
    e: FileEntry,
    seen: Seq<JudgeSubmission>,
)
    ensures
        fresh_submissions(item, entries.push(e), seen) == if has_key(
            seen + fresh_submissions(item, entries, seen),
            e.name@,
            e.username@,
        ) {
            fresh_submissions(item, entries, seen)
        } else {
            fresh_submissions(item, entries, seen).push(entry_submission(item, e))
        },
    decreases entries.len(),
{
    if entries.len() == 0 {
        assert(entries.push(e).first() == e);
        assert(entries.push(e).drop_first() =~= Seq::<FileEntry>::empty());
        assert(fresh_submissions(item, entries, seen) == Seq::<JudgeSubmission>::empty());
        assert(seen + fresh_submissions(item, entries, seen) =~= seen);
        assert(fresh_submissions(item, entries.push(e).drop_first(), seen) == Seq::<
            JudgeSubmission,
        >::empty());
        assert(fresh_submissions(
            item,
            entries.push(e).drop_first(),
            seen.push(entry_submission(item, e)),
        ) == Seq::<JudgeSubmission>::empty());
        if !has_key(seen, e.name@, e.username@) {
            assert(fresh_submissions(item, entries.push(e), seen) == seq![
                entry_submission(item, e),
            ] + Seq::<JudgeSubmission>::empty());
            assert(seq![entry_submission(item, e)] + Seq::<JudgeSubmission>::empty() =~= Seq::<
                JudgeSubmission,
            >::empty().push(entry_submission(item, e)));
        } else {
            assert(fresh_submissions(item, entries.push(e), seen) == Seq::<
                JudgeSubmission,
            >::empty());
        }
    } else {
        let f = entries.first();
        let s0 = entry_submission(item, f);
        assert(entries.push(e).first() == f);
        assert(entries.push(e).drop_first() =~= entries.drop_first().push(e));
        if has_key(seen, f.name@, f.username@) {
            lemma_fresh_push(item, entries.drop_first(), e, seen);
        } else {
            lemma_fresh_push(item, entries.drop_first(), e, seen.push(s0));
            let rest = fresh_submissions(item, entries.drop_first(), seen.push(s0));
            assert(seen.push(s0) + rest =~= seen + (seq![s0] + rest));
            if !has_key(seen.push(s0) + rest, e.name@, e.username@) {
                assert(seq![s0] + rest.push(entry_submission(item, e)) =~= (seq![s0]
                    + rest).push(entry_submission(item, e)));
            }
        }
    }
}

/// The query string one search session sends: `"{title} - {artist}"`.
pub fn query_string(item: &SearchItem) -> (r: String)
    ensures
        r@ == item.track@ + " - "@ + item.artist@,
{
    let q = item.track.clone().concat(" - ").concat(item.artist.as_str());
    q
}

/// The state one search session carries across polls: the item searched
/// for, everything accepted so far (deduplicated), how many consecutive
/// polls brought nothing new, and whether the session has decided to
/// cancel the blocking search.
#[derive(Debug)]
pub struct SearchSession {
    pub item: SearchItem,
    pub submissions: Vec<JudgeSubmission>,
    pub empty_polls: u64,
    pub cancelled: bool,
}

impl SearchSession {
    /// Everything the session ever emits is deduplicated and belongs to
    /// the searched item, and the empty-poll counter never passes the
    /// point where the session cancels.
    pub open spec fn wf(self) -> bool {
        &&& distinct_keys(self.submissions@)
        &&& forall|i: int|
            0 <= i < self.submissions@.len() ==> (#[trigger] self.submissions@[i]).track
                == self.item
        &&& self.empty_polls <= TIMES_WITH_NO_NEW_FILES + 1
        &&& self.cancelled == (self.empty_polls > TIMES_WITH_NO_NEW_FILES)
    }

    /// A fresh session: nothing seen, nothing empty, not cancelled.
    pub fn new(item: SearchItem) -> (r: SearchSession)
        ensures
            r.wf(),
            r.item == item,
            r.submissions@.len() == 0,
            r.empty_polls == 0,
            !r.cancelled,
    {
        SearchSession { item, submissions: Vec::new(), empty_polls: 0, cancelled: false }
    }

    /// Whether the session has already carried this key.
    fn contains_key(&self, name: &String, username: &String) -> (r: bool)
        ensures
            r == has_key(self.submissions@, name@, username@),
    {
        let mut i: usize = 0;
        while i < self.submissions.len()
            invariant
                i <= self.submissions@.len(),
                forall|k: int|
                    0 <= k < i ==> !((#[trigger] self.submissions@[k]).query.filename@ == name@
                        && self.submissions@[k].query.username@ == username@),
            decreases self.submissions@.len() - i,
        {
            if self.submissions[i].query.filename == *name && self.submissions[i].query.username
                == *username {
                return true;
            }
            i = i + 1;
        }
        false
    }

    /// Fold one poll batch into the session. Every key of the batch is
    /// represented afterwards; nothing already seen is duplicated; the
    /// earlier submissions stay in place; the empty-poll counter resets
    /// when the batch brought anything new and grows otherwise — a
    /// batch carrying only already-seen keys counts as empty, so a
    /// duplicate-heavy peer cannot keep a session alive — and the
    /// session cancels once too many consecutive polls brought nothing.
    pub fn absorb_poll(&mut self, entries: &Vec<FileEntry>)
        requires
            old(self).wf(),
            !old(self).cancelled,
        ensures
            final(self).wf(),
            final(self).item == old(self).item,
            final(self).submissions@.len() >= old(self).submissions@.len(),
            final(self).submissions@.take(old(self).submissions@.len() as int) == old(
                self,
            ).submissions@,
            forall|k: int|
                0 <= k < entries@.len() ==> has_key(
                    final(self).submissions@,
                    (#[trigger] entries@[k]).name@,
                    entries@[k].username@,
                ),
            forall|i: int|
                old(self).submissions@.len() <= i < final(self).submissions@.len() ==> has_entry(
                    entries@,
                    #[trigger] final(self).submissions@[i],
                ),
            final(self).empty_polls == if final(self).submissions@.len() > old(
                self,
            ).submissions@.len() {
                0u64
            } else {
                (old(self).empty_polls + 1) as u64
            },
            final(self).cancelled == (final(self).empty_polls > TIMES_WITH_NO_NEW_FILES),
            final(self).submissions@ == old(self).submissions@ + fresh_submissions(
                old(self).item,
                entries@,
                old(self).submissions@,
            ),
    {
        let ghost old_subs = self.submissions@;
        let initial_len: usize = self.submissions.len();
        proof {
            assert(self.submissions@.take(old_subs.len() as int) =~= old_subs);
            assert(entries@.take(0) =~= Seq::<FileEntry>::empty());
            assert(old_subs + fresh_submissions(self.item, entries@.take(0), old_subs)
                =~= old_subs);
        }
        let mut j: usize = 0;
        while j < entries.len()
            invariant
                self.item == old(self).item,
                self.empty_polls == old(self).empty_polls,
                self.cancelled == old(self).cancelled,
                distinct_keys(self.submissions@),
                forall|i: int|
                    0 <= i < self.submissions@.len() ==> (#[trigger] self.submissions@[i]).track
                        == self.item,
                j <= entries@.len(),
                self.submissions@.len() >= old_subs.len(),
                self.submissions@.take(old_subs.len() as int) == old_subs,
                forall|k: int|
                    0 <= k < j ==> has_key(
                        self.submissions@,
                        (#[trigger] entries@[k]).name@,
                        entries@[k].username@,
                    ),
                forall|i: int|
                    old_subs.len() <= i < self.submissions@.len() ==> has_entry(
                        entries@,
                        #[trigger] self.submissions@[i],
                    ),
                self.submissions@ == old_subs + fresh_submissions(
                    self.item,
                    entries@.take(j as int),
                    old_subs,
                ),
            decreases entries@.len() - j,
        {
            let ghost prev = self.submissions@;
            let entry = &entries[j];
            if !self.contains_key(&entry.name, &entry.username) {
                let submission = JudgeSubmission {
                    track: self.item.clone(),
                    query: DownloadableFile {
                        filename: entry.name.clone(),
                        username: entry.username.clone(),
                        size: entry.size,
                    },
                };
                proof {
                    assert(has_entry(entries@, submission)) by {
                        assert((#[trigger] entries@[j as int]).name@
                            == submission.query.filename@);
                    }
                    assert(distinct_keys(prev.push(submission))) by {
                        assert forall|a: int, b: int|
                            0 <= a < b < prev.push(submission).len() implies (
                        #[trigger] prev.push(submission)[a]).key() != (#[trigger] prev.push(
                            submission,
                        )[b]).key() by {
                            if b == prev.len() {
                                assert(!has_key(prev, submission.query.filename@,
                                    submission.query.username@));
                                assert(prev[a].query.filename@ != submission.query.filename@
                                    || prev[a].query.username@ != submission.query.username@);
                            }
                        }
                    }
                    assert(prev.push(submission).take(old_subs.len() as int) =~= prev.take(
                        old_subs.len() as int,
                    ));
                }
                self.submissions.push(submission);
                proof {
                    assert(has_key(
                        self.submissions@,
                        entries@[j as int].name@,
                        entries@[j as int].username@,
                    )) by {
                        assert((#[trigger] self.submissions@[prev.len() as int]).query.filename@
                            == entries@[j as int].name@);
                    }
                }
            }
            proof {
                assert(self.submissions@.take(prev.len() as int) =~= prev);
                lemma_has_key_extended(prev, self.submissions@);
                assert(entries@.take(j + 1) =~= entries@.take(j as int).push(entries@[j as int]));
                lemma_fresh_push(self.item, entries@.take(j as int), entries@[j as int], old_subs);
                assert(self.submissions@ == old_subs + fresh_submissions(
                    self.item,
                    entries@.take(j + 1),
                    old_subs,
                )) by {
                    let grown = fresh_submissions(self.item, entries@.take(j as int), old_subs);
                    assert(old_subs + grown == prev);
                    if !has_key(prev, entries@[j as int].name@, entries@[j as int].username@) {
                        assert(old_subs + grown.push(
                            entry_submission(self.item, entries@[j as int]),
                        ) =~= prev.push(entry_submission(self.item, entries@[j as int])));
                    }
                }
            }
            j = j + 1;
        }
        proof {
            assert(entries@.take(entries@.len() as int) =~= entries@);
        }
        if self.submissions.len() > initial_len {
            self.empty_polls = 0;
        } else {
            self.empty_polls = self.empty_polls + 1;
            if self.empty_polls > TIMES_WITH_NO_NEW_FILES {
                self.cancelled = true;
            }
        }
    }

    /// Whether the session has decided to stop polling.
    pub fn is_done(&self) -> (r: bool)
        ensures
            r == self.cancelled,
    {
        self.cancelled
    }

    /// Close the session into the stage's result event.
    pub fn into_results(self, request: SearchRequest) -> (r: SearchResults)
        requires
            self.wf(),
        ensures
            r.request == request,
            r.submissions == self.submissions,
            distinct_keys(r.submissions@),
    {
        SearchResults { request, submissions: self.submissions }
    }
}

/// The submission carries the name, the username and the size of some
/// entry of the batch.
pub open spec fn has_entry(entries: Seq<FileEntry>, sub: JudgeSubmission) -> bool {
    exists|k: int|
        0 <= k < entries.len() && (#[trigger] entries[k]).name@ == sub.query.filename@
            && entries[k].username@ == sub.query.username@ && entries[k].size == sub.query.size
}

/// Growing a submission list only ever adds keys.
pub proof fn lemma_has_key_extended(before: Seq<JudgeSubmission>, after: Seq<JudgeSubmission>)
    requires
        after.len() >= before.len(),
        after.take(before.len() as int) == before,
    ensures
        forall|n: Seq<char>, u: Seq<char>| has_key(before, n, u) ==> has_key(after, n, u),
{
    assert forall|n: Seq<char>, u: Seq<char>| has_key(before, n, u) implies has_key(
        after,
        n,
        u,
    ) by {
        let i = choose|i: int|
            0 <= i < before.len() && (#[trigger] before[i]).query.filename@ == n
                && before[i].query.username@ == u;
        assert(after[i] == after.take(before.len() as int)[i]);
    }
}

/// The dedup law: whatever a well-formed session went through, no two
/// of the submissions it emits share a `(filename, username)` key.
pub proof fn lemma_session_dedup(s: SearchSession)
    requires
        s.wf(),
    ensures
        distinct_keys(s.submissions@),
{
}

/// The filenames of one result batch, as the session dump keeps them.
#[derive(Debug, Clone)]
pub struct OwnSearchResult {
    pub filenames: Vec<String>,
}

impl OwnSearchResult {
    /// Keep just the names of a batch.
    pub fn from_entries(files: &Vec<FileEntry>) -> (r: OwnSearchResult)
        ensures
            r.filenames@.len() == files@.len(),
            forall|i: int|
                0 <= i < files@.len() ==> (#[trigger] r.filenames@[i])@ == files@[i].name@,
    {
        let mut names: Vec<String> = Vec::new();
        let mut i: usize = 0;
        while i < files.len()
            invariant
                i <= files@.len(),
                names@.len() == i,
                forall|k: int|
                    0 <= k < i ==> (#[trigger] names@[k])@ == files@[k].name@,
            decreases files@.len() - i,
        {
            names.push(files[i].name.clone());
            i = i + 1;
        }
        OwnSearchResult { filenames: names }
    }
}

/// One dump record: every batch a session saw, and the query it ran.
#[derive(Debug, Clone)]
pub struct DumpData {
    pub results: Vec<OwnSearchResult>,
    pub query: SearchItem,
}

/// Copy a submission list, element for element.
pub fn clone_submissions(v: &Vec<JudgeSubmission>) -> (r: Vec<JudgeSubmission>)
    ensures
        r@ =~= v@,
{
    let mut out: Vec<JudgeSubmission> = Vec::new();
    let mut i: usize = 0;
    while i < v.len()
        invariant
            i <= v@.len(),
            out@ =~= v@.take(i as int),
        decreases v@.len() - i,
    {
        out.push(v[i].clone());
        i = i + 1;
    }
    proof {
        assert(v@.take(v@.len() as int) =~= v@);
    }
    out
}

/// Every submission one search over this batch list may produce: map
/// each file of each batch to a submission for the track.
pub fn build_submissions(track: &SearchItem, files: &Vec<FileEntry>) -> (r: Vec<JudgeSubmission>)
    ensures
        r@.len() == files@.len(),
        forall|i: int|
            0 <= i < files@.len() ==> {
                &&& (#[trigger] r@[i]).track == track
                &&& r@[i].query.filename@ == files@[i].name@
                &&& r@[i].query.username@ == files@[i].username@
                &&& r@[i].query.size == files@[i].size
            },
{
    let mut out: Vec<JudgeSubmission> = Vec::new();
    let mut i: usize = 0;
    while i < files.len()
        invariant
            i <= files@.len(),
            out@.len() == i,
            forall|k: int|
                0 <= k < i ==> {
                    &&& (#[trigger] out@[k]).track == track
                    &&& out@[k].query.filename@ == files@[k].name@
                    &&& out@[k].query.username@ == files@[k].username@
                    &&& out@[k].query.size == files@[k].size
                },
        decreases files@.len() - i,
    {
        let f = &files[i];
        out.push(
            JudgeSubmission {
                track: track.clone(),
                query: DownloadableFile {
                    filename: f.name.clone(),
                    username: f.username.clone(),
                    size: f.size,
                },
            },
        );
        i = i + 1;
    }
    out
}

} // verus!
