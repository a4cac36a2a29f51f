//! The overlap resolver: locating the boundary between new and
//! already-processed transactions.
//!
//! The anchor is the first (most recent) row of the previous export. Because
//! identical transactions can appear several times, the resolver counts how
//! often the anchor repeats in the previous export and consumes exactly that
//! many occurrences from the end of the current export; everything before the
//! last consumed occurrence is new.

use vstd::prelude::*;

use crate::records::{
    lemma_match_count_concat, lemma_match_count_le_len, lemma_match_count_skip_step,
    lemma_match_count_zero, match_count, record_models, records_equal, RecordModel,
    TransactionRecord,
};

verus! {

/// Why a run with a previous export could not be resolved.
#[derive(Clone, Copy, Debug, PartialEq, Eq, Structural)]
pub enum ResolveError {
    /// The previous export contains no usable rows, so nothing can anchor the
    /// comparison.
    EmptyPrevious,
    /// The anchor appears fewer times in the current export than in the
    /// previous one: the two exports do not fully overlap and transactions
    /// could be lost silently.
    NonOverlapping { found: usize, expected: usize },
}

/// `c` is the cut index for `cur` against `anchor` repeated `rep` times:
/// `cur[c]` is an anchor occurrence and exactly `rep` occurrences lie at or
/// after `c`. Rows before `c` are new; rows at or after `c` were already
/// processed.
pub open spec fn is_cut_index(cur: Seq<RecordModel>, anchor: RecordModel, rep: nat, c: int) -> bool {
    &&& 0 <= c < cur.len()
    &&& records_equal(cur[c], anchor)
    &&& match_count(cur.skip(c), anchor) == rep
}

/// The cut index is unique: two indices that both satisfy `is_cut_index`
/// coincide.
pub proof fn lemma_cut_index_unique(
    cur: Seq<RecordModel>,
    anchor: RecordModel,
    rep: nat,
    c1: int,
    c2: int,
)
    requires
        is_cut_index(cur, anchor, rep, c1),
        is_cut_index(cur, anchor, rep, c2),
    ensures
        c1 == c2,
{
    if c1 != c2 {
        let lo = if c1 < c2 {
            c1
        } else {
            c2
        };
        let hi = if c1 < c2 {
            c2
        } else {
            c1
        };
        assert(cur.skip(lo) =~= cur.subrange(lo, hi) + cur.skip(hi));
        lemma_match_count_concat(cur.subrange(lo, hi), cur.skip(hi), anchor);
        lemma_match_count_zero(cur.subrange(lo, hi), anchor);
        assert(cur.subrange(lo, hi)[0] == cur[lo]);
    }
}

/// Computes the cut index into `current`.
///
/// With no previous export every row is new and the cut is `current.len()`.
/// With a previous export the cut is the unique `is_cut_index` position for
/// the previous export's anchor and repetition count; the run fails if the
/// previous export is empty, or if the anchor appears fewer times in the
/// current export than in the previous one (a reconciliation gap).
pub fn resolve_cut(current: &Vec<TransactionRecord>, previous: Option<&Vec<TransactionRecord>>) -> (r: Result<
    usize,
    ResolveError,
>)
    ensures
        ({
            let cur = record_models(current@);
            match previous {
                None => r is Ok && r->Ok_0 == current@.len(),
                Some(p) => {
                    let prev = record_models(p@);
                    if prev.len() == 0 {
                        r == Err::<usize, ResolveError>(ResolveError::EmptyPrevious)
                    } else {
                        let anchor = prev[0];
                        let rep = match_count(prev, anchor);
                        let found = match_count(cur, anchor);
                        if found < rep {
                            r == Err::<usize, ResolveError>(
                                (ResolveError::NonOverlapping {
                                    found: found as usize,
                                    expected: rep as usize,
                                }),
                            )
                        } else {
                            r is Ok && is_cut_index(cur, anchor, rep, r->Ok_0 as int)
                        }
                    }
                },
            }
        }),
{
    match previous {
        None => Ok(current.len()),
        Some(prev) => {
            let ghost prev_m = record_models(prev@);
            let ghost cur_m = record_models(current@);
            if prev.len() == 0 {
                return Err(ResolveError::EmptyPrevious);
            }
            let anchor = &prev[0];
            let ghost anchor_m = prev_m[0];

            // Count how many rows of the previous export equal the anchor.
            let mut rep: usize = 0;
            let mut i: usize = prev.len();
            proof {
                assert(prev_m.skip(i as int).len() == 0);
            }
            while i > 0
                invariant
                    i <= prev.len(),
                    prev_m == record_models(prev@),
                    anchor_m == prev_m[0],
                    anchor@ == anchor_m,
                    rep as nat == match_count(prev_m.skip(i as int), anchor_m),
                decreases i,
            {
                i = i - 1;
                proof {
                    lemma_match_count_skip_step(prev_m, anchor_m, i as int);
                    lemma_match_count_le_len(prev_m.skip(i as int), anchor_m);
                }
                if prev[i].same_as(anchor) {
                    rep = rep + 1;
                }
            }
            proof {
                assert(prev_m.skip(0) =~= prev_m);
            }
            assert(rep as nat == match_count(prev_m, anchor_m));
            assert(rep >= 1);

            // Scan the current export from its oldest end, consuming anchor
            // occurrences; the cut is where the count first reaches `rep`.
            let mut cnt: usize = 0;
            let mut cut: Option<usize> = None;
            let mut j: usize = current.len();
            proof {
                assert(cur_m.skip(j as int).len() == 0);
            }
            while j > 0
                invariant
                    j <= current.len(),
                    cur_m == record_models(current@),
                    anchor@ == anchor_m,
                    cnt as nat == match_count(cur_m.skip(j as int), anchor_m),
                    cut is None ==> cnt < rep,
                    cut matches Some(c) ==> is_cut_index(cur_m, anchor_m, rep as nat, c as int),
                decreases j,
            {
                j = j - 1;
                proof {
                    lemma_match_count_skip_step(cur_m, anchor_m, j as int);
                    lemma_match_count_le_len(cur_m.skip(j as int), anchor_m);
                }
                if current[j].same_as(anchor) {
                    cnt = cnt + 1;
                    if cut.is_none() && cnt == rep {
                        cut = Some(j);
                    }
                }
            }
            proof {
                assert(cur_m.skip(0) =~= cur_m);
            }
            match cut {
                Some(c) => {
                    proof {
                        assert(cur_m =~= cur_m.take(c as int) + cur_m.skip(c as int));
                        lemma_match_count_concat(
                            cur_m.take(c as int),
                            cur_m.skip(c as int),
                            anchor_m,
                        );
                    }
                    Ok(c)
                },
                None => Err(ResolveError::NonOverlapping { found: cnt, expected: rep }),
            }
        },
    }
}

/// Copies the new rows: the prefix of `current` strictly before `cut`.
pub fn select_new_rows(current: &Vec<TransactionRecord>, cut: usize) -> (r: Vec<TransactionRecord>)
    requires
        cut <= current@.len(),
    ensures
        r@ == current@.take(cut as int),
{
    let mut r: Vec<TransactionRecord> = Vec::new();
    let mut i: usize = 0;
    while i < cut
        invariant
            i <= cut,
            cut <= current@.len(),
            r@ == current@.take(i as int),
        decreases cut - i,
    {
        r.push(current[i].clone());
        proof {
            assert(current@.take(i + 1 as int) =~= current@.take(i as int).push(current@[i as int]));
        }
        i = i + 1;
    }
    r
}

/// Re-running on the same data finds nothing new: when the previous export's
/// rows are exactly the current export's rows, the cut index is 0, so no row
/// is emitted.
pub proof fn lemma_rerun_emits_nothing(rows: Seq<RecordModel>)
    requires
        rows.len() > 0,
    ensures
        is_cut_index(rows, rows[0], match_count(rows, rows[0]), 0),
{
    assert(rows.skip(0) =~= rows);
}

/// Re-running with a previous export identical to the current one can only
/// cut at index 0: nothing is emitted.
pub proof fn lemma_rerun_cut_is_zero(rows: Seq<RecordModel>, c: int)
    requires
        rows.len() > 0,
        is_cut_index(rows, rows[0], match_count(rows, rows[0]), c),
    ensures
        c == 0,
{
    lemma_rerun_emits_nothing(rows);
    lemma_cut_index_unique(rows, rows[0], match_count(rows, rows[0]), c, 0);
}

/// When the current export is the previous one extended with genuinely new
/// rows in front (none of them equal to the anchor), the cut falls exactly at
/// the boundary: all new rows are emitted, all old rows are dropped. This
/// holds however the anchor's duplicates are arranged inside the old part.
pub proof fn lemma_extension_emits_exactly_the_new_rows(new: Seq<RecordModel>, prev: Seq<RecordModel>)
    requires
        prev.len() > 0,
        match_count(new, prev[0]) == 0,
    ensures
        is_cut_index(new + prev, prev[0], match_count(prev, prev[0]), new.len() as int),
{
    let cur = new + prev;
    assert(cur.skip(new.len() as int) =~= prev);
    assert(cur[new.len() as int] == prev[0]);
}

/// In the extension situation the cut can fall nowhere else: exactly the new
/// rows are emitted.
pub proof fn lemma_extension_cut_is_boundary(
    new: Seq<RecordModel>,
    prev: Seq<RecordModel>,
    c: int,
)
    requires
        prev.len() > 0,
        match_count(new, prev[0]) == 0,
        is_cut_index(new + prev, prev[0], match_count(prev, prev[0]), c),
    ensures
        c == new.len(),
{
    lemma_extension_emits_exactly_the_new_rows(new, prev);
    lemma_cut_index_unique(
        new + prev,
        prev[0],
        match_count(prev, prev[0]),
        c,
        new.len() as int,
    );
}

} // verus!
