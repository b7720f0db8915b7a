//! Wayback Machine: snapshot count and the first and last snapshot of a domain, read
//! from the rows of the archive's CDX answer.
use vstd::prelude::*;

use crate::ext::{naive_datetime, parse_naive_datetime};
use crate::model::Timestamp;

verus! {

/// Snapshot history of a domain.
#[derive(Clone, Copy, Debug)]
pub struct WaybackInfo {
    pub snapshots: u32,
    pub first: Option<Timestamp>,
    pub last: Option<Timestamp>,
}

/// Format of a CDX timestamp: 14 digits, year to second.
pub const CDX_TIMESTAMP_FORMAT: &'static str = "%Y%m%d%H%M%S";

/// The timestamps present in `rows`, in order.
pub open spec fn present(rows: Seq<Option<Seq<char>>>) -> Seq<Seq<char>>
    decreases rows.len(),
{
    if rows.len() == 0 {
        Seq::empty()
    } else {
        match rows.last() {
            Some(t) => present(rows.drop_last()).push(t),
            None => present(rows.drop_last()),
        }
    }
}

/// The rows after the header row.
pub open spec fn after_header(rows: Seq<Option<Seq<char>>>) -> Seq<Option<Seq<char>>> {
    if rows.len() == 0 {
        rows
    } else {
        rows.drop_first()
    }
}

/// The first-column text of each row of a CDX answer (`None` where a row has none).
pub open spec fn rows_view(rows: Seq<Option<String>>) -> Seq<Option<Seq<char>>> {
    rows.map_values(|r: Option<String>| match r {
        Some(t) => Some(t@),
        None => None,
    })
}

/// The history that a CDX answer shows: the header row is skipped, every other row
/// with a timestamp counts as a snapshot (the count wraps at `u32::MAX`, as a `u32`
/// cast does), and the first and last timestamps are read as UTC.
pub open spec fn history_of(rows: Seq<Option<Seq<char>>>, w: WaybackInfo) -> bool {
    let ts = present(after_header(rows));
    &&& w.snapshots == ts.len() as u32
    &&& w.first == (if ts.len() > 0 { naive_datetime(ts[0], CDX_TIMESTAMP_FORMAT@) } else { None })
    &&& w.last == (if ts.len() > 0 { naive_datetime(ts.last(), CDX_TIMESTAMP_FORMAT@) } else { None })
}

/// Reads the snapshot history out of the first column of each row of a CDX answer.
pub fn summarize(rows: &Vec<Option<String>>) -> (r: WaybackInfo)
    ensures
        history_of(rows_view(rows@), r),
{
    let ghost rv = rows_view(rows@);
    let mut count: usize = 0;
    let mut first: Option<&String> = None;
    let mut last: Option<&String> = None;
    let mut i: usize = 1;
    if rows.len() == 0 {
        assert(present(after_header(rv)).len() == 0);
        return WaybackInfo { snapshots: 0, first: None, last: None };
    }
    assert(after_header(rv).take(0).len() == 0);
    while i < rows.len()
        invariant
            1 <= i <= rows.len(),
            rv == rows_view(rows@),
            count == present(after_header(rv).take(i - 1)).len(),
            count <= i,
            first is None <==> count == 0,
            last is None <==> count == 0,
            first matches Some(f) ==> f@ == present(after_header(rv).take(i - 1))[0],
            last matches Some(l) ==> l@ == present(after_header(rv).take(i - 1)).last(),
        decreases rows.len() - i,
    {
        let ghost pre = after_header(rv).take(i - 1);
        proof {
            let nxt = after_header(rv).take(i as int);
            assert(nxt.drop_last() == pre);
            assert(nxt.last() == rv[i as int]);
        }
        match &rows[i] {
            Some(t) => {
                proof {
                    if count > 0 {
                        assert(present(pre).push(t@)[0] == present(pre)[0]);
                    }
                }
                if first.is_none() {
                    first = Some(t);
                }
                last = Some(t);
                count += 1;
            },
            None => {},
        }
        i += 1;
    }
    proof {
        assert(after_header(rv).take(rows.len() - 1) == after_header(rv));
    }
    let first_ts = match first {
        Some(t) => parse_naive_datetime(t.as_str(), CDX_TIMESTAMP_FORMAT),
        None => None,
    };
    let last_ts = match last {
        Some(t) => parse_naive_datetime(t.as_str(), CDX_TIMESTAMP_FORMAT),
        None => None,
    };
    WaybackInfo { snapshots: count as u32, first: first_ts, last: last_ts }
}

} // verus!
