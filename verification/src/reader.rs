//! Turning parsed rows of fields into transaction records.
//!
//! The first row is the header; the three named columns of the schema are
//! located in it, and every later row that has all three columns becomes a
//! record. Rows whose date field carries the pending marker stand for
//! authorisation holds that are not final: they are reported separately and
//! never become part of the result.

use vstd::prelude::*;

use crate::records::{record_models, RecordModel, TransactionRecord};

verus! {

/// Which header column holds each logical field.
pub struct Schema {
    pub date_column: String,
    pub amount_column: String,
    pub description_column: String,
}

/// The sentinel date marking a pending transaction (an authorisation hold).
pub open spec fn pending_marker() -> Seq<char> {
    "Invalid date"@
}

/// A record whose date field is the pending marker.
pub open spec fn is_pending(r: RecordModel) -> bool {
    r.0 == pending_marker()
}

/// The first index at or after `i` whose field equals `name`.
pub open spec fn find_col_from(header: Seq<Seq<char>>, name: Seq<char>, i: int) -> Option<int>
    decreases header.len() - i,
{
    if i < 0 || i >= header.len() {
        None
    } else if header[i] == name {
        Some(i)
    } else {
        find_col_from(header, name, i + 1)
    }
}

/// The first header column named `name`.
pub open spec fn find_col(header: Seq<Seq<char>>, name: Seq<char>) -> Option<int> {
    find_col_from(header, name, 0)
}

/// The record a data row denotes, when it has all three columns.
pub open spec fn row_to_record(row: Seq<Seq<char>>, di: int, ai: int, xi: int) -> Option<RecordModel> {
    if di < row.len() && ai < row.len() && xi < row.len() {
        Some((row[di], row[ai], row[xi]))
    } else {
        None
    }
}

/// The usable records of the data rows, in source order: rows lacking a
/// column are skipped, pending rows are excluded.
pub open spec fn kept_of_rows(rows: Seq<Seq<Seq<char>>>, di: int, ai: int, xi: int) -> Seq<RecordModel>
    decreases rows.len(),
{
    if rows.len() == 0 {
        Seq::empty()
    } else {
        let rest = kept_of_rows(rows.drop_last(), di, ai, xi);
        match row_to_record(rows.last(), di, ai, xi) {
            Some(r) => if !is_pending(r) {
                rest.push(r)
            } else {
                rest
            },
            None => rest,
        }
    }
}

/// The pending records of the data rows, in source order.
pub open spec fn pending_of_rows(rows: Seq<Seq<Seq<char>>>, di: int, ai: int, xi: int) -> Seq<RecordModel>
    decreases rows.len(),
{
    if rows.len() == 0 {
        Seq::empty()
    } else {
        let rest = pending_of_rows(rows.drop_last(), di, ai, xi);
        match row_to_record(rows.last(), di, ai, xi) {
            Some(r) => if is_pending(r) {
                rest.push(r)
            } else {
                rest
            },
            None => rest,
        }
    }
}

/// The positions of the three schema columns in the header row, when the
/// file has a header and all three are present.
pub open spec fn schema_cols(records: Seq<Seq<Seq<char>>>, dc: Seq<char>, ac: Seq<char>, xc: Seq<char>) -> Option<(int, int, int)> {
    if records.len() == 0 {
        None
    } else {
        match (find_col(records[0], dc), find_col(records[0], ac), find_col(records[0], xc)) {
            (Some(di), Some(ai), Some(xi)) => Some((di, ai, xi)),
            _ => None,
        }
    }
}

/// The usable records of a whole parsed file.
pub open spec fn kept_records(records: Seq<Seq<Seq<char>>>, dc: Seq<char>, ac: Seq<char>, xc: Seq<char>) -> Seq<RecordModel> {
    match schema_cols(records, dc, ac, xc) {
        None => Seq::empty(),
        Some(c) => kept_of_rows(records.drop_first(), c.0, c.1, c.2),
    }
}

/// The pending records of a whole parsed file.
pub open spec fn pending_records(records: Seq<Seq<Seq<char>>>, dc: Seq<char>, ac: Seq<char>, xc: Seq<char>) -> Seq<RecordModel> {
    match schema_cols(records, dc, ac, xc) {
        None => Seq::empty(),
        Some(c) => pending_of_rows(records.drop_first(), c.0, c.1, c.2),
    }
}

/// No usable record is pending: a pending row can neither be emitted nor
/// serve as the anchor, since anchors and output are drawn from the usable
/// records only.
pub proof fn lemma_kept_rows_not_pending(rows: Seq<Seq<Seq<char>>>, di: int, ai: int, xi: int)
    ensures
        forall|i: int|
            0 <= i < kept_of_rows(rows, di, ai, xi).len() ==> !is_pending(
                kept_of_rows(rows, di, ai, xi)[i],
            ),
    decreases rows.len(),
{
    if rows.len() > 0 {
        lemma_kept_rows_not_pending(rows.drop_last(), di, ai, xi);
        let rest = kept_of_rows(rows.drop_last(), di, ai, xi);
        let all = kept_of_rows(rows, di, ai, xi);
        assert forall|i: int| 0 <= i < all.len() implies !is_pending(all[i]) by {
            if i < rest.len() {
                assert(!is_pending(rest[i]));
            }
        }
    }
}

/// Finds the first header column named `name`.
fn find_col_exec(header: &Vec<String>, name: &String) -> (r: Option<usize>)
    ensures
        match r {
            None => find_col(header.deep_view(), name@) is None,
            Some(i) => find_col(header.deep_view(), name@) == Some(i as int),
        },
{
    let ghost h = header.deep_view();
    let n = header.len();
    let mut i: usize = 0;
    while i < n
        invariant
            i <= n,
            n == header@.len(),
            h == header.deep_view(),
            find_col(h, name@) == find_col_from(h, name@, i as int),
        decreases n - i,
    {
        proof {
            assert(h[i as int] == header@[i as int]@);
        }
        if header[i] == *name {
            return Some(i);
        }
        i = i + 1;
    }
    None
}

impl Schema {
    /// Extracts the usable and the pending records of a parsed file, both in
    /// source order. A file without a header row, or whose header lacks one
    /// of the schema's columns, yields no records at all.
    pub fn extract_transactions(&self, records: &Vec<Vec<String>>) -> (r: (
        Vec<TransactionRecord>,
        Vec<TransactionRecord>,
    ))
        ensures
            record_models(r.0@) == kept_records(
                records.deep_view(),
                self.date_column@,
                self.amount_column@,
                self.description_column@,
            ),
            record_models(r.1@) == pending_records(
                records.deep_view(),
                self.date_column@,
                self.amount_column@,
                self.description_column@,
            ),
            forall|i: int| 0 <= i < r.0@.len() ==> !is_pending(r.0@[i]@),
    {
        let ghost recs = records.deep_view();
        let mut kept: Vec<TransactionRecord> = Vec::new();
        let mut pending: Vec<TransactionRecord> = Vec::new();
        let n = records.len();
        if n == 0 {
            return (kept, pending);
        }
        let header = &records[0];
        let di = match find_col_exec(header, &self.date_column) {
            Some(i) => i,
            None => {
                return (kept, pending);
            },
        };
        let ai = match find_col_exec(header, &self.amount_column) {
            Some(i) => i,
            None => {
                return (kept, pending);
            },
        };
        let xi = match find_col_exec(header, &self.description_column) {
            Some(i) => i,
            None => {
                return (kept, pending);
            },
        };
        assert(schema_cols(recs, self.date_column@, self.amount_column@, self.description_column@)
            == Some((di as int, ai as int, xi as int)));
        let marker = "Invalid date".to_owned();
        let mut i: usize = 1;
        while i < n
            invariant
                1 <= i <= n,
                n == records@.len(),
                recs == records.deep_view(),
                record_models(kept@) == kept_of_rows(
                    recs.subrange(1, i as int),
                    di as int,
                    ai as int,
                    xi as int,
                ),
                record_models(pending@) == pending_of_rows(
                    recs.subrange(1, i as int),
                    di as int,
                    ai as int,
                    xi as int,
                ),
                marker@ == pending_marker(),
            decreases n - i,
        {
            let row = &records[i];
            proof {
                assert(recs.subrange(1, i as int + 1).drop_last() =~= recs.subrange(1, i as int));
                assert(recs.subrange(1, i as int + 1).last() == recs[i as int]);
            }
            if di < row.len() && ai < row.len() && xi < row.len() {
                let rec = TransactionRecord {
                    date: row[di].clone(),
                    amount: row[ai].clone(),
                    description: row[xi].clone(),
                };
                assert(rec@ == row_to_record(recs[i as int], di as int, ai as int, xi as int)->Some_0);
                if rec.date == marker {
                    pending.push(rec);
                    proof {
                        assert(record_models(pending@) =~= record_models(pending@.drop_last()).push(
                            pending@.last()@,
                        ));
                    }
                } else {
                    kept.push(rec);
                    proof {
                        assert(record_models(kept@) =~= record_models(kept@.drop_last()).push(
                            kept@.last()@,
                        ));
                    }
                }
            }
            i = i + 1;
        }
        proof {
            assert(recs.subrange(1, n as int) =~= recs.drop_first());
            lemma_kept_rows_not_pending(recs.drop_first(), di as int, ai as int, xi as int);
            assert(forall|k: int|
                0 <= k < kept@.len() ==> record_models(kept@)[k] == #[trigger] kept@[k]@);
        }
        (kept, pending)
    }
}

} // verus!
