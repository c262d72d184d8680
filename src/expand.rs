use vstd::prelude::*;
use crate::record::{FetchError, Record};

verus! {

/// What expanding `r` yields when fetching its children came out as `outcome`.
///
/// A record that needs no expansion, or whose children could not be fetched,
/// is passed through unchanged. Otherwise the children are attached, and a
/// table block also gets them as the rows of its table object.
pub open spec fn attached(r: Record, outcome: Result<Vec<Record>, FetchError>) -> Record {
    match outcome {
        Ok(children) => if r.needs_expansion_spec() {
            Record {
                children: Some(children),
                rows_mirrored: r.is_table_spec(),
                ..r
            }
        } else {
            r
        },
        Err(_) => r,
    }
}

/// Attaches the fetched children of `r` to it, as `attached` describes.
///
/// Where the record says it has no children, its children slot is left as it
/// was: a freshly decoded record keeps it unset.
pub fn attach_children(r: Record, outcome: Result<Vec<Record>, FetchError>) -> (e: Record)
    ensures
        e == attached(r, outcome),
        !r.has_children ==> e.children == r.children,
        r.is_fresh() && !r.has_children ==> e.children.is_none(),
        r.is_table_spec() && r.needs_expansion_spec() && outcome.is_ok() ==> e.rows_spec()
            == e.children && e.children == Some(outcome.unwrap()),
        e.id == r.id && e.has_children == r.has_children && e.kind == r.kind && e.payload
            == r.payload,
{
    match outcome {
        Ok(children) => {
            if r.needs_expansion() {
                let rows_mirrored = r.is_table();
                Record { children: Some(children), rows_mirrored, ..r }
            } else {
                r
            }
        },
        Err(_) => r,
    }
}

/// Expands one level: the `i`-th record gets the `i`-th outcome of fetching
/// its children. A failed sibling leaves the others untouched.
pub fn expand_level(
    records: Vec<Record>,
    outcomes: Vec<Result<Vec<Record>, FetchError>>,
) -> (e: Vec<Record>)
    requires
        records.len() == outcomes.len(),
    ensures
        e.len() == records.len(),
        forall|i: int| 0 <= i < e.len() ==> e[i] == attached(records[i], outcomes[i]),
        forall|i: int|
            0 <= i < e.len() && !records[i].has_children ==> (#[trigger] e[i]).children
                == records[i].children,
{
    let mut records = records;
    let mut outcomes = outcomes;
    let ghost recs0 = records@;
    let ghost outs0 = outcomes@;
    let mut rev: Vec<Record> = Vec::new();
    while records.len() > 0
        invariant
            records.len() == outcomes.len(),
            records.len() + rev.len() == recs0.len(),
            recs0.len() == outs0.len(),
            forall|i: int| 0 <= i < records.len() ==> records[i] == recs0[i],
            forall|i: int| 0 <= i < outcomes.len() ==> outcomes[i] == outs0[i],
            forall|j: int|
                0 <= j < rev.len() ==> rev[j] == attached(
                    recs0[recs0.len() - 1 - j],
                    outs0[recs0.len() - 1 - j],
                ),
        decreases records.len(),
    {
        let r = records.pop().unwrap();
        let o = outcomes.pop().unwrap();
        rev.push(attach_children(r, o));
    }
    let mut e: Vec<Record> = Vec::new();
    let n = rev.len();
    while rev.len() > 0
        invariant
            rev.len() + e.len() == n,
            n == recs0.len(),
            recs0.len() == outs0.len(),
            forall|j: int|
                0 <= j < rev.len() ==> rev[j] == attached(
                    recs0[n - 1 - j],
                    outs0[n - 1 - j],
                ),
            forall|i: int| 0 <= i < e.len() ==> e[i] == attached(recs0[i], outs0[i]),
        decreases rev.len(),
    {
        let r = rev.pop().unwrap();
        e.push(r);
    }
    e
}

} // verus!
