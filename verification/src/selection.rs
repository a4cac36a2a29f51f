//! Choosing the current and the previous export from a directory listing.
//!
//! Every file name that fits the export pattern yields an entry; the newest
//! entry by timestamp is the current export, and the next-newest entry with
//! the same account identifier, if any, is the previous export. Ties on the
//! timestamp are broken towards the earlier position in the listing.

use vstd::prelude::*;

use crate::datetime::{lemma_key_orders, time_before, DateTime};
use crate::filename::{parse_file_name, parse_name_spec};

verus! {

/// A file recognised as an export: its name, account identifier and
/// timestamp.
pub struct ExportFile {
    pub name: String,
    pub iban: String,
    pub stamp: DateTime,
}

/// The model of a recognised export: name, identifier and timestamp.
pub open spec fn export_models(files: Seq<ExportFile>) -> Seq<(Seq<char>, Seq<char>, DateTime)> {
    files.map_values(|e: ExportFile| (e.name@, e.iban@, e.stamp))
}

/// The exports recognised among `names`, in listing order.
pub open spec fn exports_spec(names: Seq<Seq<char>>) -> Seq<(Seq<char>, Seq<char>, DateTime)>
    decreases names.len(),
{
    if names.len() == 0 {
        Seq::empty()
    } else {
        let rest = exports_spec(names.drop_last());
        match parse_name_spec(names.last()) {
            Some(p) => rest.push((names.last(), p.0, p.1)),
            None => rest,
        }
    }
}

/// Parses every name, keeping the ones that fit the export pattern, in
/// listing order. Every kept timestamp is a valid calendar moment.
pub fn collect_exports(names: &Vec<String>) -> (r: Vec<ExportFile>)
    ensures
        export_models(r@) == exports_spec(names@.map_values(|s: String| s@)),
        forall|i: int| 0 <= i < r@.len() ==> (#[trigger] r@[i].stamp).valid(),
{
    let ghost nm = names@.map_values(|s: String| s@);
    let mut r: Vec<ExportFile> = Vec::new();
    let n = names.len();
    let mut i: usize = 0;
    while i < n
        invariant
            i <= n,
            n == names@.len(),
            nm == names@.map_values(|s: String| s@),
            export_models(r@) == exports_spec(nm.take(i as int)),
            forall|k: int| 0 <= k < r@.len() ==> (#[trigger] r@[k].stamp).valid(),
        decreases n - i,
    {
        proof {
            assert(nm.take(i as int + 1).drop_last() =~= nm.take(i as int));
            assert(nm.take(i as int + 1).last() == names@[i as int]@);
        }
        match parse_file_name(names[i].as_str()) {
            Some(p) => {
                let e = ExportFile { name: names[i].clone(), iban: p.0, stamp: p.1 };
                r.push(e);
                proof {
                    assert(export_models(r@) =~= export_models(r@.drop_last()).push(
                        (r@.last().name@, r@.last().iban@, r@.last().stamp),
                    ));
                }
            },
            None => {},
        }
        i = i + 1;
    }
    proof {
        assert(nm.take(n as int) =~= nm);
    }
    r
}

/// A winning ordering key means a winning moment in time: an entry whose key
/// is at least every other entry's key is never strictly earlier than any of
/// them. Selection therefore goes by the denoted moment alone, however the
/// timestamp was written in the file name.
pub proof fn lemma_selection_newest_by_time(files: Seq<ExportFile>, c: int)
    requires
        forall|i: int| 0 <= i < files.len() ==> (#[trigger] files[i].stamp).valid(),
        0 <= c < files.len(),
        forall|j: int|
            0 <= j < files.len() ==> (#[trigger] files[j].stamp).key_spec()
                <= files[c].stamp.key_spec(),
    ensures
        forall|j: int|
            0 <= j < files.len() ==> !time_before(files[c].stamp, (#[trigger] files[j].stamp)),
{
    assert forall|j: int|
        0 <= j < files.len() implies !time_before(files[c].stamp, files[j].stamp) by {
        lemma_key_orders(files[c].stamp, files[j].stamp);
    }
}

/// Picks the current export (newest by timestamp, earliest listed on ties)
/// and, among the remaining entries, the previous export: the newest one
/// with the current export's account identifier, earliest listed on ties.
/// Yields nothing exactly when no export was recognised.
pub fn select_exports(files: &Vec<ExportFile>) -> (r: Option<(usize, Option<usize>)>)
    ensures
        match r {
            None => files@.len() == 0,
            Some(sel) => {
                let c = sel.0 as int;
                &&& 0 <= c < files@.len()
                &&& forall|j: int|
                    0 <= j < files@.len() ==> (#[trigger] files@[j].stamp).key_spec()
                        <= files@[c].stamp.key_spec()
                &&& forall|j: int|
                    0 <= j < c ==> (#[trigger] files@[j].stamp).key_spec()
                        < files@[c].stamp.key_spec()
                &&& match sel.1 {
                    None => forall|j: int|
                        0 <= j < files@.len() && j != c ==> (#[trigger] files@[j].iban)@
                            != files@[c].iban@,
                    Some(q) => {
                        let qi = q as int;
                        &&& 0 <= qi < files@.len()
                        &&& qi != c
                        &&& files@[qi].iban@ == files@[c].iban@
                        &&& forall|j: int|
                            0 <= j < files@.len() && j != c && (#[trigger] files@[j].iban)@
                                == files@[c].iban@ ==> (files@[j].stamp.key_spec()
                                < files@[qi].stamp.key_spec() || (files@[j].stamp.key_spec()
                                == files@[qi].stamp.key_spec() && qi <= j))
                    },
                }
            },
        },
{
    let n = files.len();
    if n == 0 {
        return None;
    }
    let mut c: usize = 0;
    let mut ckey: u64 = files[0].stamp.key();
    let mut i: usize = 1;
    while i < n
        invariant
            1 <= i <= n,
            n == files@.len(),
            c < i,
            ckey as int == files@[c as int].stamp.key_spec(),
            forall|j: int|
                0 <= j < i ==> (#[trigger] files@[j].stamp).key_spec() <= ckey as int,
            forall|j: int| 0 <= j < c ==> (#[trigger] files@[j].stamp).key_spec() < ckey as int,
        decreases n - i,
    {
        let k = files[i].stamp.key();
        if k > ckey {
            c = i;
            ckey = k;
        }
        i = i + 1;
    }
    let mut p: Option<usize> = None;
    let mut pkey: u64 = 0;
    let mut j: usize = 0;
    while j < n
        invariant
            j <= n,
            n == files@.len(),
            c < n,
            match p {
                None => forall|t: int|
                    0 <= t < j && t != c ==> (#[trigger] files@[t].iban)@ != files@[c as int].iban@,
                Some(q) => {
                    let qi = q as int;
                    &&& 0 <= qi < j
                    &&& qi != c
                    &&& files@[qi].iban@ == files@[c as int].iban@
                    &&& pkey as int == files@[qi].stamp.key_spec()
                    &&& forall|t: int|
                        0 <= t < j && t != c && (#[trigger] files@[t].iban)@
                            == files@[c as int].iban@ ==> (files@[t].stamp.key_spec()
                            < pkey as int || (files@[t].stamp.key_spec() == pkey as int && qi
                            <= t))
                },
            },
        decreases n - j,
    {
        if j != c && files[j].iban == files[c].iban {
            let k = files[j].stamp.key();
            match p {
                None => {
                    p = Some(j);
                    pkey = k;
                },
                Some(_) => {
                    if k > pkey {
                        p = Some(j);
                        pkey = k;
                    }
                },
            }
        }
        j = j + 1;
    }
    Some((c, p))
}

} // verus!
