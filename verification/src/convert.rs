//! The whole run on raw file contents: parse, filter, resolve, render.
//!
//! Given the bytes of the current export and, when one exists, of the
//! previous export for the same account, this computes the encoded output
//! table holding exactly the transactions that are new since the previous
//! run, together with the pending rows that were set aside on either side.

use vstd::prelude::*;

use crate::csvio::{csv_encoding_of, csv_rows_of, parse_semicolon_rows};
use crate::output::{output_rows, render_output};
use crate::reader::{kept_records, pending_records, Schema};
use crate::records::{match_count, record_models, RecordModel, TransactionRecord};
use crate::resolver::{is_cut_index, resolve_cut, select_new_rows, ResolveError};

verus! {

/// The usable records that a file's bytes denote under a schema.
pub open spec fn file_kept(bytes: Seq<u8>, dc: Seq<char>, ac: Seq<char>, xc: Seq<char>) -> Seq<RecordModel> {
    kept_records(csv_rows_of(bytes), dc, ac, xc)
}

/// The pending records that a file's bytes denote under a schema.
pub open spec fn file_pending(bytes: Seq<u8>, dc: Seq<char>, ac: Seq<char>, xc: Seq<char>) -> Seq<RecordModel> {
    pending_records(csv_rows_of(bytes), dc, ac, xc)
}

/// The outcome of a successful run.
#[derive(Debug)]
pub struct Conversion {
    /// The encoded output table.
    pub output: Vec<u8>,
    /// How many transactions the output holds.
    pub written: usize,
    /// Pending rows set aside from the current export.
    pub pending_current: Vec<TransactionRecord>,
    /// Pending rows set aside from the previous export.
    pub pending_previous: Vec<TransactionRecord>,
}

/// Runs the whole conversion on raw file contents.
///
/// With no previous export every usable row of the current export is
/// emitted. With one, the cut index against the previous export's anchor
/// decides: exactly the rows before the cut are emitted. The run fails when
/// the previous export has no usable rows, or when the anchor appears fewer
/// times in the current export than in the previous one.
pub fn convert(current: &Vec<u8>, previous: Option<&Vec<u8>>, schema: &Schema) -> (r: Result<
    Conversion,
    ResolveError,
>)
    ensures
        ({
            let dc = schema.date_column@;
            let ac = schema.amount_column@;
            let xc = schema.description_column@;
            let cur = file_kept(current@, dc, ac, xc);
            match previous {
                None => r matches Ok(out) && {
                    &&& out.written == cur.len()
                    &&& out.output@ == csv_encoding_of(output_rows(cur))
                    &&& record_models(out.pending_current@) == file_pending(current@, dc, ac, xc)
                    &&& out.pending_previous@.len() == 0
                },
                Some(pb) => {
                    let prev = file_kept(pb@, dc, ac, xc);
                    if prev.len() == 0 {
                        r == Err::<Conversion, ResolveError>(ResolveError::EmptyPrevious)
                    } else {
                        let anchor = prev[0];
                        let rep = match_count(prev, anchor);
                        let found = match_count(cur, anchor);
                        if found < rep {
                            r == Err::<Conversion, ResolveError>(
                                (ResolveError::NonOverlapping {
                                    found: found as usize,
                                    expected: rep as usize,
                                }),
                            )
                        } else {
                            r matches Ok(out) && {
                                &&& is_cut_index(cur, anchor, rep, out.written as int)
                                &&& out.output@ == csv_encoding_of(
                                    output_rows(cur.take(out.written as int)),
                                )
                                &&& record_models(out.pending_current@) == file_pending(
                                    current@,
                                    dc,
                                    ac,
                                    xc,
                                )
                                &&& record_models(out.pending_previous@) == file_pending(
                                    pb@,
                                    dc,
                                    ac,
                                    xc,
                                )
                            }
                        }
                    }
                },
            }
        }),
{
    let cur_fields = parse_semicolon_rows(current.as_slice());
    let (cur_rows, cur_pending) = schema.extract_transactions(&cur_fields);
    match previous {
        None => {
            let written = cur_rows.len();
            let output = render_output(&cur_rows);
            Ok(
                Conversion {
                    output,
                    written,
                    pending_current: cur_pending,
                    pending_previous: Vec::new(),
                },
            )
        },
        Some(pb) => {
            let prev_fields = parse_semicolon_rows(pb.as_slice());
            let (prev_rows, prev_pending) = schema.extract_transactions(&prev_fields);
            match resolve_cut(&cur_rows, Some(&prev_rows)) {
                Err(e) => Err(e),
                Ok(cut) => {
                    let new_rows = select_new_rows(&cur_rows, cut);
                    proof {
                        assert(record_models(new_rows@) =~= record_models(cur_rows@).take(
                            cut as int,
                        ));
                    }
                    let output = render_output(&new_rows);
                    Ok(
                        Conversion {
                            output,
                            written: cut,
                            pending_current: cur_pending,
                            pending_previous: prev_pending,
                        },
                    )
                },
            }
        },
    }
}

} // verus!
