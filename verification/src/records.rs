//! Transaction records and structural equality.
//!
//! Structural equality over the three fields is the sole mechanism for
//! recognising "the same transaction" across two exports, so it is given a
//! precise mathematical meaning here, together with the occurrence count that
//! the overlap resolver is built on.

use vstd::prelude::*;

verus! {

/// A single transaction as read from an export file.
///
/// The amount is locale-formatted text and is passed through verbatim; no
/// field is ever reinterpreted.
#[derive(Debug)]
pub struct TransactionRecord {
    pub date: String,
    pub amount: String,
    pub description: String,
}

impl View for TransactionRecord {
    type V = (Seq<char>, Seq<char>, Seq<char>);

    open spec fn view(&self) -> Self::V {
        (self.date@, self.amount@, self.description@)
    }
}

/// The mathematical model of a record: its three fields as character
/// sequences, in source order (date, amount, description).
pub type RecordModel = (Seq<char>, Seq<char>, Seq<char>);

/// Structural equality of two record models: all three fields agree.
pub open spec fn records_equal(a: RecordModel, b: RecordModel) -> bool {
    a.0 == b.0 && a.1 == b.1 && a.2 == b.2
}

/// The model of a whole sequence of records.
pub open spec fn record_models(rows: Seq<TransactionRecord>) -> Seq<RecordModel> {
    rows.map_values(|t: TransactionRecord| t@)
}

impl TransactionRecord {
    /// Decides structural equality; `a.same_as(&b)` is the one comparison the
    /// resolver relies on.
    pub fn same_as(&self, other: &TransactionRecord) -> (r: bool)
        ensures
            r == records_equal(self@, other@),
    {
        self.date == other.date && self.amount == other.amount
            && self.description == other.description
    }
}

impl Clone for TransactionRecord {
    fn clone(&self) -> (r: Self)
        ensures
            r == *self,
    {
        TransactionRecord {
            date: self.date.clone(),
            amount: self.amount.clone(),
            description: self.description.clone(),
        }
    }
}

impl PartialEq for TransactionRecord {
    fn eq(&self, other: &Self) -> (r: bool) {
        self.date == other.date && self.amount == other.amount
            && self.description == other.description
    }
}

impl vstd::std_specs::cmp::PartialEqSpecImpl for TransactionRecord {
    open spec fn obeys_eq_spec() -> bool {
        true
    }

    open spec fn eq_spec(&self, other: &Self) -> bool {
        records_equal(self@, other@)
    }
}

/// How many entries of `rows` are structurally equal to `t`.
pub open spec fn match_count(rows: Seq<RecordModel>, t: RecordModel) -> nat
    decreases rows.len(),
{
    if rows.len() == 0 {
        0
    } else {
        (if records_equal(rows[0], t) {
            1nat
        } else {
            0nat
        }) + match_count(rows.drop_first(), t)
    }
}

/// Peeling one element off the front of a suffix: the count over `rows[i..]`
/// is the count over `rows[i + 1..]` plus one exactly when `rows[i]` matches.
pub proof fn lemma_match_count_skip_step(rows: Seq<RecordModel>, t: RecordModel, i: int)
    requires
        0 <= i < rows.len(),
    ensures
        match_count(rows.skip(i), t) == match_count(rows.skip(i + 1), t) + (if records_equal(
            rows[i],
            t,
        ) {
            1nat
        } else {
            0nat
        }),
{
    assert(rows.skip(i).drop_first() =~= rows.skip(i + 1));
    assert(rows.skip(i)[0] == rows[i]);
}

/// The count never exceeds the length.
pub proof fn lemma_match_count_le_len(rows: Seq<RecordModel>, t: RecordModel)
    ensures
        match_count(rows, t) <= rows.len(),
    decreases rows.len(),
{
    if rows.len() > 0 {
        lemma_match_count_le_len(rows.drop_first(), t);
    }
}

/// The count distributes over concatenation.
pub proof fn lemma_match_count_concat(a: Seq<RecordModel>, b: Seq<RecordModel>, t: RecordModel)
    ensures
        match_count(a + b, t) == match_count(a, t) + match_count(b, t),
    decreases a.len(),
{
    if a.len() == 0 {
        assert(a + b =~= b);
    } else {
        assert((a + b).drop_first() =~= a.drop_first() + b);
        assert((a + b)[0] == a[0]);
        lemma_match_count_concat(a.drop_first(), b, t);
    }
}

/// A zero count means no entry matches.
pub proof fn lemma_match_count_zero(rows: Seq<RecordModel>, t: RecordModel)
    requires
        match_count(rows, t) == 0,
    ensures
        forall|i: int| 0 <= i < rows.len() ==> !records_equal(rows[i], t),
    decreases rows.len(),
{
    if rows.len() > 0 {
        lemma_match_count_zero(rows.drop_first(), t);
        assert forall|i: int| 0 <= i < rows.len() implies !records_equal(rows[i], t) by {
            if i > 0 {
                assert(rows.drop_first()[i - 1] == rows[i]);
            }
        }
    }
}

} // verus!
