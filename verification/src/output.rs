//! Mapping surviving records into the output schema and encoding them.
//!
//! Each record becomes a row {date, payee, memo, amount}: the payee is the
//! source description, the memo is always empty, and date and amount pass
//! through unmodified. A header row precedes the data.

use vstd::prelude::*;

use crate::csvio::{csv_encoding_of, encode_comma_rows};
use crate::records::{record_models, RecordModel, TransactionRecord};

verus! {

/// The output header row.
pub open spec fn output_header() -> Seq<Seq<char>> {
    seq!["Date"@, "Payee"@, "Memo"@, "Amount"@]
}

/// The output row a record maps to: date, payee (description), empty memo,
/// amount.
pub open spec fn output_row(r: RecordModel) -> Seq<Seq<char>> {
    seq![r.0, r.2, Seq::<char>::empty(), r.1]
}

/// The whole output table: the header row, then one row per record, in
/// order.
pub open spec fn output_rows(rows: Seq<RecordModel>) -> Seq<Seq<Seq<char>>> {
    seq![output_header()] + rows.map_values(|r: RecordModel| output_row(r))
}

/// Builds the output table for `rows` and encodes it comma-delimited.
pub fn render_output(rows: &Vec<TransactionRecord>) -> (r: Vec<u8>)
    ensures
        r@ == csv_encoding_of(output_rows(record_models(rows@))),
{
    let mut table: Vec<Vec<String>> = Vec::new();
    let mut hdr: Vec<String> = Vec::new();
    hdr.push("Date".to_owned());
    hdr.push("Payee".to_owned());
    hdr.push("Memo".to_owned());
    hdr.push("Amount".to_owned());
    proof {
        assert(hdr.deep_view() =~= output_header());
    }
    table.push(hdr);
    proof {
        assert(table.deep_view() =~= output_rows(record_models(rows@.take(0))));
    }
    let n = rows.len();
    let mut i: usize = 0;
    while i < n
        invariant
            i <= n,
            n == rows@.len(),
            table.deep_view() == output_rows(record_models(rows@.take(i as int))),
        decreases n - i,
    {
        let mut row: Vec<String> = Vec::new();
        row.push(rows[i].date.clone());
        row.push(rows[i].description.clone());
        row.push(String::new());
        row.push(rows[i].amount.clone());
        proof {
            assert(row.deep_view() =~= output_row(rows@[i as int]@));
        }
        let ghost old_deep = table.deep_view();
        let ghost row_deep = row.deep_view();
        table.push(row);
        proof {
            let m0 = record_models(rows@.take(i as int));
            let m1 = record_models(rows@.take(i as int + 1));
            assert(m1 =~= m0.push(rows@[i as int]@));
            assert(table.deep_view() =~= old_deep.push(row_deep));
            assert(output_rows(m1) =~= output_rows(m0).push(output_row(rows@[i as int]@)));
        }
        i = i + 1;
    }
    proof {
        assert(rows@.take(n as int) =~= rows@);
    }
    encode_comma_rows(&table)
}

} // verus!
