//! The judge stage: which submissions of a result set are accepted, and
//! the edit-distance judge that scores a candidate filename against the
//! rendered track.

use vstd::prelude::*;

use crate::events::{DownloadRequest, JudgeResults, SearchRequest};
use crate::items::{item_rendering, JudgeSubmission};

verus! {

use vstd::string::StrSliceExecFns;

/// The subsequence of submissions whose verdict is true, in input order.
pub open spec fn accepted_of(subs: Seq<JudgeSubmission>, verdicts: Seq<bool>) -> Seq<
    JudgeSubmission,
>
    decreases subs.len(),
{
    if subs.len() == 0 {
        Seq::<JudgeSubmission>::empty()
    } else {
        let rest = accepted_of(subs.drop_last(), verdicts.drop_last());
        if verdicts[subs.len() - 1] {
            rest.push(subs.last())
        } else {
            rest
        }
    }
}

/// The judge worker's aggregation: pair each accepted submission with
/// the originating request, preserve input order, and report the total
/// number judged.
pub fn select_accepted(
    request: SearchRequest,
    submissions: Vec<JudgeSubmission>,
    verdicts: &Vec<bool>,
) -> (r: JudgeResults)
    requires
        verdicts@.len() == submissions@.len(),
    ensures
        r.request == request,
        r.total == submissions@.len(),
        r.accepted@.len() == accepted_of(submissions@, verdicts@).len(),
        forall|j: int|
            0 <= j < r.accepted@.len() ==> (#[trigger] r.accepted@[j]).submission == accepted_of(
                submissions@,
                verdicts@,
            )[j] && r.accepted@[j].request == request,
{
    let total = submissions.len();
    let mut accepted: Vec<DownloadRequest> = Vec::new();
    let mut i: usize = 0;
    proof {
        assert(accepted_of(submissions@.take(0), verdicts@.take(0)) =~= Seq::<
            JudgeSubmission,
        >::empty());
    }
    while i < submissions.len()
        invariant
            i <= submissions@.len() == verdicts@.len(),
            accepted@.len() == accepted_of(submissions@.take(i as int), verdicts@.take(i as int)).len(),
            forall|j: int|
                0 <= j < accepted@.len() ==> (#[trigger] accepted@[j]).submission == accepted_of(
                    submissions@.take(i as int),
                    verdicts@.take(i as int),
                )[j] && accepted@[j].request == request,
        decreases submissions@.len() - i,
    {
        proof {
            assert(submissions@.take(i + 1).drop_last() =~= submissions@.take(i as int));
            assert(verdicts@.take(i + 1).drop_last() =~= verdicts@.take(i as int));
            assert(submissions@.take(i + 1).last() == submissions@[i as int]);
        }
        if verdicts[i] {
            accepted.push(
                DownloadRequest { request: request.clone(), submission: submissions[i].clone() },
            );
        }
        i = i + 1;
    }
    proof {
        assert(submissions@.take(submissions@.len() as int) =~= submissions@);
        assert(verdicts@.take(verdicts@.len() as int) =~= verdicts@);
    }
    JudgeResults { request, accepted, total }
}

/// The Levenshtein edit distance between two character sequences: the
/// least number of insertions, deletions and substitutions turning one
/// into the other.
pub open spec fn edit_distance(a: Seq<char>, b: Seq<char>) -> nat
    decreases a.len(), b.len(),
{
    if a.len() == 0 {
        b.len()
    } else if b.len() == 0 {
        a.len()
    } else {
        let del = edit_distance(a.drop_last(), b) + 1;
        let ins = edit_distance(a, b.drop_last()) + 1;
        let sub = edit_distance(a.drop_last(), b.drop_last()) + if a.last() == b.last() {
            0nat
        } else {
            1nat
        };
        min3(del, ins, sub)
    }
}

/// The least of three naturals.
pub open spec fn min3(x: nat, y: nat, z: nat) -> nat {
    if x <= y && x <= z {
        x
    } else if y <= z {
        y
    } else {
        z
    }
}

/// The distance never exceeds the longer length.
pub proof fn lemma_edit_distance_le_max(a: Seq<char>, b: Seq<char>)
    ensures
        edit_distance(a, b) <= if a.len() >= b.len() {
            a.len()
        } else {
            b.len()
        },
    decreases a.len(), b.len(),
{
    if a.len() > 0 && b.len() > 0 {
        lemma_edit_distance_le_max(a.drop_last(), b);
        lemma_edit_distance_le_max(a, b.drop_last());
        lemma_edit_distance_le_max(a.drop_last(), b.drop_last());
    }
}

/// Collect the characters of a string slice.
fn chars_of(s: &str) -> (r: Vec<char>)
    ensures
        r@ == s@,
{
    let n = s.unicode_len();
    let mut out: Vec<char> = Vec::new();
    let mut i: usize = 0;
    while i < n
        invariant
            i <= n == s@.len(),
            out@ =~= s@.take(i as int),
        decreases n - i,
    {
        out.push(s.get_char(i));
        i = i + 1;
    }
    proof {
        assert(s@.take(n as int) =~= s@);
    }
    out
}

/// The Levenshtein distance, computed row by row.
pub fn levenshtein(a: &str, b: &str) -> (r: usize)
    ensures
        r == edit_distance(a@, b@),
{
    let av = chars_of(a);
    let bv = chars_of(b);
    let n = av.len();
    let m = bv.len();
    let mut prev: Vec<usize> = Vec::new();
    prev.push(0);
    proof {
        assert(b@.take(0).len() == 0);
        assert(a@.take(0).len() == 0);
    }
    let mut j: usize = 0;
    while j < m
        invariant
            j < m + 1,
            m == bv@.len(),
            bv@ == b@,
            prev@.len() == j + 1,
            forall|q: int|
                0 <= q <= j ==> prev@[q] == edit_distance(Seq::<char>::empty(), b@.take(q)),
        decreases m - j,
    {
        proof {
            assert(b@.take(j + 1).len() == j + 1);
        }
        prev.push(j + 1);
        j = j + 1;
    }
    let mut row: usize = 0;
    while row < n
        invariant
            row <= n,
            n == av@.len(),
            m == bv@.len(),
            av@ == a@,
            bv@ == b@,
            prev@.len() == m + 1,
            forall|q: int|
                0 <= q <= m ==> prev@[q] == edit_distance(a@.take(row as int), b@.take(q)),
        decreases n - row,
    {
        let i = row + 1;
        let mut cur: Vec<usize> = Vec::new();
        proof {
            assert(a@.take(i as int).len() == i);
            assert(b@.take(0).len() == 0);
        }
        cur.push(i);
        let mut jx: usize = 0;
        while jx < m
            invariant
                1 <= i <= n,
                i == row + 1,
                jx <= m,
                n == av@.len(),
                m == bv@.len(),
                av@ == a@,
                bv@ == b@,
                prev@.len() == m + 1,
                forall|q: int|
                    0 <= q <= m ==> prev@[q] == edit_distance(a@.take(i - 1), b@.take(q)),
                cur@.len() == jx + 1,
                forall|q: int|
                    0 <= q <= jx ==> cur@[q] == edit_distance(a@.take(i as int), b@.take(q)),
            decreases m - jx,
        {
            let j = jx + 1;
            let ghost ai = a@.take(i as int);
            let ghost bj = b@.take(j as int);
            proof {
                assert(ai.drop_last() =~= a@.take(i - 1));
                assert(bj.drop_last() =~= b@.take(j - 1));
                assert(ai.last() == a@[i - 1]);
                assert(bj.last() == b@[j - 1]);
                lemma_edit_distance_le_max(ai, bj);
            }
            let del: u128 = prev[j] as u128 + 1;
            let ins: u128 = cur[j - 1] as u128 + 1;
            let same = av[i - 1] == bv[j - 1];
            let sub: u128 = if same {
                prev[j - 1] as u128
            } else {
                prev[j - 1] as u128 + 1
            };
            let best128: u128 = if del <= ins && del <= sub {
                del
            } else if ins <= sub {
                ins
            } else {
                sub
            };
            proof {
                assert(best128 == edit_distance(ai, bj));
                assert(edit_distance(ai, bj) <= n || edit_distance(ai, bj) <= m);
            }
            let best: usize = best128 as usize;
            cur.push(best);
            jx = j;
        }
        prev = cur;
        row = i;
    }
    proof {
        assert(a@.take(n as int) =~= a@);
        assert(b@.take(m as int) =~= b@);
        if n == 0 {
            assert(a@.take(0) =~= Seq::<char>::empty());
        }
    }
    prev[m]
}

/// The edit-distance judge's decision: with `m` the longer length and
/// `d` the distance, the normalized similarity `(m - d) / m` must
/// strictly exceed `cutoff_permille / 1000`. Two empty texts count as
/// identical.
pub open spec fn levenshtein_accepts(a: Seq<char>, b: Seq<char>, cutoff_permille: u32) -> bool {
    let m = if a.len() >= b.len() {
        a.len()
    } else {
        b.len()
    };
    let d = edit_distance(a, b);
    if m == 0 {
        1000 > cutoff_permille
    } else {
        (m - d) * 1000 > cutoff_permille * m
    }
}

/// The edit-distance judge over a submission: compare the rendered
/// track against the candidate filename.
pub fn levenshtein_judge(submission: &JudgeSubmission, cutoff_permille: u32) -> (r: bool)
    ensures
        r == levenshtein_accepts(
            item_rendering(submission.track),
            submission.query.filename@,
            cutoff_permille,
        ),
{
    let rendered = submission.track.display_string();
    let a = rendered.as_str();
    let b = submission.query.filename.as_str();
    let d = levenshtein(a, b);
    let la = a.unicode_len();
    let lb = b.unicode_len();
    let m = if la >= lb {
        la
    } else {
        lb
    };
    proof {
        lemma_edit_distance_le_max(a@, b@);
        assert(la as nat == a@.len() && lb as nat == b@.len());
        assert(d <= m);
    }
    if m == 0 {
        1000 > cutoff_permille
    } else {
        let sim = (m - d) as u128 * 1000;
        proof {
            assert((cutoff_permille as u128) * (m as u128) <= u128::MAX) by (nonlinear_arith)
                requires
                    cutoff_permille as u128 <= 0xffff_ffffu128,
                    m as u128 <= 0xffff_ffff_ffff_ffffu128,
            ;
        }
        let bar = cutoff_permille as u128 * m as u128;
        sim > bar
    }
}

/// The remote judge's decision on a parsed reply: the reported score,
/// in thousandths, must strictly exceed the cutoff; a reply carrying
/// no score counts as zero and is never accepted.
pub fn accept_remote_score(score_permille: Option<u32>, cutoff_permille: u32) -> (r: bool)
    ensures
        score_permille matches Some(s) ==> r == (s > cutoff_permille),
        score_permille is None ==> !r,
{
    match score_permille {
        Some(s) => s > cutoff_permille,
        None => false,
    }
}

/// Judge a whole result set with the edit-distance judge: one verdict
/// per submission, in order.
pub fn levenshtein_verdicts(submissions: &Vec<JudgeSubmission>, cutoff_permille: u32) -> (r: Vec<
    bool,
>)
    ensures
        r@.len() == submissions@.len(),
        forall|i: int|
            0 <= i < submissions@.len() ==> r@[i] == levenshtein_accepts(
                item_rendering((#[trigger] submissions@[i]).track),
                submissions@[i].query.filename@,
                cutoff_permille,
            ),
{
    let mut out: Vec<bool> = Vec::new();
    let mut i: usize = 0;
    while i < submissions.len()
        invariant
            i <= submissions@.len(),
            out@.len() == i,
            forall|k: int|
                0 <= k < i ==> out@[k] == levenshtein_accepts(
                    item_rendering((#[trigger] submissions@[k]).track),
                    submissions@[k].query.filename@,
                    cutoff_permille,
                ),
        decreases submissions@.len() - i,
    {
        let v = levenshtein_judge(&submissions[i], cutoff_permille);
        out.push(v);
        i = i + 1;
    }
    out
}

} // verus!
